//! A writer of frames into a byte sink.
use vstd::prelude::*;
use crate::frame::{append_frame, frame};

verus! {

/// Writes frames at the end of the bytes it holds.  Its view is every byte
/// in the sink, those it started with included.
pub struct ArgsWriter {
    writer: Vec<u8>,
}

impl View for ArgsWriter {
    type V = Seq<u8>;

    closed spec fn view(&self) -> Seq<u8> {
        self.writer@
    }
}

impl ArgsWriter {
    /// A writer that appends to `writer`.
    pub fn new(writer: Vec<u8>) -> (w: Self)
        ensures
            w@ == writer@,
    {
        ArgsWriter { writer }
    }

    /// Writes `value` as one frame: its length as four little-endian bytes
    /// (truncated to 32 bits), then the bytes themselves.
    pub fn write_slice(&mut self, value: &[u8]) -> (r: Result<(), ()>)
        ensures
            r is Ok,
            final(self)@ == old(self)@ + frame(value@),
    {
        append_frame(&mut self.writer, value);
        Ok(())
    }

    /// The sink, with every frame written so far.
    pub fn into_inner(self) -> (bytes: Vec<u8>)
        ensures
            bytes@ == self@,
    {
        self.writer
    }
}

} // verus!
