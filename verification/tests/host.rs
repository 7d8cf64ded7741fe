use t_rust::args::{process_argument, Argument, ArgumentError, Backend, HostInput};
use t_rust::host::{check_arguments, parse_mode, ConfigError, Mode, ProverConfig};

fn arg(kind: &str, value: &str) -> Argument {
    Argument { name: String::from("x"), value: String::from(value), kind: String::from(kind) }
}

fn number(a: &Argument, b: Backend) -> Option<u32> {
    match process_argument(a, b) {
        Ok(HostInput::Uint32(n)) => Some(n),
        _ => None,
    }
}

fn bytes(a: &Argument, b: Backend) -> Result<Vec<u8>, ArgumentError> {
    match process_argument(a, b) {
        Ok(HostInput::Bytes(v)) => Ok(v),
        Ok(other) => panic!("unexpected {:?}", other),
        Err(e) => Err(e),
    }
}

#[test]
fn uint32_is_decimal() {
    assert_eq!(number(&arg("uint32", "10"), Backend::Risc0), Some(10));
    assert_eq!(number(&arg("uint32", "+42"), Backend::Sp1), Some(42));
    assert_eq!(number(&arg("uint32", "007"), Backend::Local), Some(7));
    assert_eq!(number(&arg("uint32", "4294967295"), Backend::Jolt), Some(u32::MAX));
}

#[test]
fn bad_uint32_is_rejected() {
    for v in ["", "+", "-1", " 1", "1 ", "4294967296", "0x10", "1_000"] {
        assert!(matches!(
            process_argument(&arg("uint32", v), Backend::Risc0),
            Err(ArgumentError::InvalidUint32)
        ));
    }
}

#[test]
fn bytearray_is_hex() {
    assert_eq!(bytes(&arg("bytearray", "0aFf10"), Backend::Sp1), Ok(vec![0x0a, 0xff, 0x10]));
    assert_eq!(bytes(&arg("bytearray", ""), Backend::Local), Ok(vec![]));
}

#[test]
fn hex_prefix_is_dropped_by_risc0_and_jolt_only() {
    assert_eq!(bytes(&arg("bytearray", "0x1234"), Backend::Risc0), Ok(vec![0x12, 0x34]));
    assert_eq!(bytes(&arg("bytearray", "0x1234"), Backend::Jolt), Ok(vec![0x12, 0x34]));
    assert_eq!(bytes(&arg("bytearray", "0x1234"), Backend::Sp1), Err(ArgumentError::InvalidHex));
    assert_eq!(bytes(&arg("bytearray", "0x1234"), Backend::Local), Err(ArgumentError::InvalidHex));
}

#[test]
fn bad_hex_is_rejected() {
    assert_eq!(bytes(&arg("bytearray", "abc"), Backend::Sp1), Err(ArgumentError::InvalidHex));
    assert_eq!(bytes(&arg("bytearray", "zz"), Backend::Sp1), Err(ArgumentError::InvalidHex));
    assert_eq!(bytes(&arg("bytearray", "0x"), Backend::Risc0), Ok(vec![]));
}

#[test]
fn file_is_taken_by_risc0_and_sp1_only() {
    assert!(matches!(process_argument(&arg("file", ""), Backend::Risc0), Ok(HostInput::InputFile)));
    assert!(matches!(process_argument(&arg("file", "x"), Backend::Sp1), Ok(HostInput::InputFile)));
    assert!(matches!(
        process_argument(&arg("file", ""), Backend::Jolt),
        Err(ArgumentError::UnknownKind)
    ));
    assert!(matches!(
        process_argument(&arg("file", ""), Backend::Local),
        Err(ArgumentError::UnknownKind)
    ));
}

#[test]
fn unknown_kind_is_rejected() {
    assert!(matches!(
        process_argument(&arg("string", "x"), Backend::Risc0),
        Err(ArgumentError::UnknownKind)
    ));
    assert!(matches!(
        process_argument(&arg("UINT32", "1"), Backend::Sp1),
        Err(ArgumentError::UnknownKind)
    ));
}

#[test]
fn prover_config_takes_mode_then_inputs() {
    let args = vec![arg("mode", "prove"), arg("uint32", "5"), arg("bytearray", "0x01")];
    let cfg = ProverConfig::new(args, Backend::Risc0).unwrap();
    assert_eq!(cfg.mode, "prove");
    assert_eq!(cfg.inputs.len(), 2);
    assert!(matches!(cfg.inputs[0], HostInput::Uint32(5)));
    assert!(matches!(&cfg.inputs[1], HostInput::Bytes(b) if b == &vec![1u8]));
}

#[test]
fn prover_config_reports_the_first_bad_argument() {
    let args = vec![arg("mode", "run"), arg("uint32", "5"), arg("uint32", "x"), arg("what", "")];
    let err = ProverConfig::new(args, Backend::Sp1).unwrap_err();
    assert_eq!(err, ConfigError { index: 2, error: ArgumentError::InvalidUint32 });
}

#[test]
fn prover_config_with_mode_only() {
    let cfg = ProverConfig::new(vec![arg("mode", "verify")], Backend::Sp1).unwrap();
    assert_eq!(cfg.mode, "verify");
    assert!(cfg.inputs.is_empty());
}

#[test]
fn modes() {
    assert_eq!(parse_mode(&String::from("run")), Some(Mode::Run));
    assert_eq!(parse_mode(&String::from("prove")), Some(Mode::Prove));
    assert_eq!(parse_mode(&String::from("benchmark")), Some(Mode::Prove));
    assert_eq!(parse_mode(&String::from("verify")), Some(Mode::Verify));
    assert_eq!(parse_mode(&String::from("Run")), None);
    assert_eq!(parse_mode(&String::from("")), None);
}

#[test]
fn empty_argument_list_is_refused() {
    assert!(check_arguments(vec![]).is_err());
    assert_eq!(check_arguments(vec![arg("mode", "run")]).unwrap().len(), 1);
}
