//! Input and output plumbing for guest programs: length-prefixed frames,
//! the readers and writers that carry them, the in-memory channels of the
//! local backend, the fixed register of the Jolt backend, and the rules by
//! which a host turns command-line arguments into guest inputs.
pub mod frame;
pub mod reader;
pub mod writer;
pub mod local;
pub mod jolt;
pub mod args;
pub mod host;
