//! What a prover host decides before it runs a guest: the mode it was asked
//! for and the inputs it hands to the guest.
use vstd::prelude::*;
use crate::args::{
    argument_input, process_argument, Argument, ArgumentError, Backend, HostInput, InputView,
};

verus! {

/// What the host was asked to do.
#[derive(Clone, Copy, Debug, PartialEq, Eq, Structural)]
pub enum Mode {
    /// Execute the guest without proving.
    Run,
    /// Execute the guest and prove the run (`prove` or `benchmark`).
    Prove,
    /// Check a proof made earlier.
    Verify,
}

/// The mode a word names: `run`, `prove`, `benchmark` or `verify`.
pub open spec fn mode_named(word: Seq<char>) -> Option<Mode> {
    if word == "run"@ {
        Some(Mode::Run)
    } else if word == "prove"@ || word == "benchmark"@ {
        Some(Mode::Prove)
    } else if word == "verify"@ {
        Some(Mode::Verify)
    } else {
        None
    }
}

/// The mode `mode` names, or `None` for a word the hosts do not know.
pub fn parse_mode(mode: &String) -> (r: Option<Mode>)
    ensures
        r == mode_named(mode@),
{
    if *mode == String::from_str("run") {
        Some(Mode::Run)
    } else if *mode == String::from_str("prove") || *mode == String::from_str("benchmark") {
        Some(Mode::Prove)
    } else if *mode == String::from_str("verify") {
        Some(Mode::Verify)
    } else {
        None
    }
}

/// The argument list was empty.
#[derive(Clone, Copy, Debug, PartialEq, Eq, Structural)]
pub struct NoArguments;

/// Accepts an argument list only if it holds at least one argument.
pub fn check_arguments(args: Vec<Argument>) -> (r: Result<Vec<Argument>, NoArguments>)
    ensures
        r is Ok <==> args@.len() > 0,
        r is Ok ==> r->Ok_0@ == args@,
{
    if args.len() == 0 {
        Err(NoArguments)
    } else {
        Ok(args)
    }
}

/// Which argument could not be turned into an input, and why.
#[derive(Clone, Copy, Debug, PartialEq, Eq, Structural)]
pub struct ConfigError {
    pub index: usize,
    pub error: ArgumentError,
}

/// A host's plan: the mode word, taken from the first argument, and the
/// inputs made of the other arguments, in order.
#[derive(Debug)]
pub struct ProverConfig {
    pub mode: String,
    pub inputs: Vec<HostInput>,
}

/// Every argument from `from` on (up to `to`) makes an input.
pub open spec fn all_make_inputs(args: Seq<Argument>, backend: Backend, from: int, to: int) -> bool {
    forall|j: int| from <= j < to ==> #[trigger] argument_input(args[j], backend) is Ok
}

impl ProverConfig {
    /// Reads the mode from the first argument and turns every other
    /// argument into an input; stops at the first argument that makes none.
    pub fn new(args: Vec<Argument>, backend: Backend) -> (r: Result<Self, ConfigError>)
        requires
            args@.len() > 0,
        ensures
            r is Ok <==> all_make_inputs(args@, backend, 1, args@.len() as int),
            r matches Ok(cfg) ==> {
                &&& cfg.mode@ == args@[0].value@
                &&& cfg.inputs@.len() == args@.len() - 1
                &&& forall|i: int|
                    0 <= i < cfg.inputs@.len() ==> argument_input(args@[i + 1], backend) == Ok::<InputView, ArgumentError>(
                        #[trigger] cfg.inputs@[i]@,
                    )
            },
            r matches Err(e) ==> {
                &&& 1 <= e.index < args@.len()
                &&& argument_input(args@[e.index as int], backend) == Err::<InputView, ArgumentError>(e.error)
                &&& all_make_inputs(args@, backend, 1, e.index as int)
            },
    {
        let mode = args[0].value.clone();
        let mut inputs: Vec<HostInput> = Vec::new();
        let mut i: usize = 1;
        while i < args.len()
            invariant
                1 <= i <= args@.len(),
                inputs@.len() == i - 1,
                all_make_inputs(args@, backend, 1, i as int),
                forall|k: int|
                    0 <= k < inputs@.len() ==> argument_input(args@[k + 1], backend) == Ok::<InputView, ArgumentError>(
                        #[trigger] inputs@[k]@,
                    ),
            decreases args@.len() - i,
        {
            match process_argument(&args[i], backend) {
                Ok(input) => {
                    inputs.push(input);
                },
                Err(error) => {
                    return Err(ConfigError { index: i, error });
                },
            }
            i = i + 1;
        }
        Ok(ProverConfig { mode, inputs })
    }
}

} // verus!
