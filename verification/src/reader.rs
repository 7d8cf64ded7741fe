//! A reader of frames from a byte stream.
use vstd::prelude::*;
use crate::frame::{
    after_first_frame, decode_frame_at, decode_frames_from, first_payload, frame_complete_at,
    frames_complete_from, payload_views, split_frames, starts_with_frame,
};

verus! {

/// Reads frames, one at a time or all that are left, from the bytes it was
/// given.  Its view is the part of the stream not read yet.
pub struct ArgsReader {
    reader: Vec<u8>,
    pos: usize,
}

impl ArgsReader {
    #[verifier::type_invariant]
    spec fn inv(self) -> bool {
        self.pos <= self.reader@.len()
    }
}

impl View for ArgsReader {
    type V = Seq<u8>;

    closed spec fn view(&self) -> Seq<u8> {
        self.reader@.skip(self.pos as int)
    }
}

impl ArgsReader {
    /// A reader positioned at the start of `reader`.
    pub fn new(reader: Vec<u8>) -> (r: Self)
        ensures
            r@ == reader@,
    {
        let r = ArgsReader { reader, pos: 0 };
        assert(r.reader@.skip(0) =~= r.reader@);
        r
    }

    /// Whether a whole frame is waiting, so that `read_vec` can run.
    pub fn has_frame(&self) -> (b: bool)
        ensures
            b == starts_with_frame(self@),
    {
        proof {
            use_type_invariant(self);
        }
        frame_complete_at(self.reader.as_slice(), self.pos)
    }

    /// Whether `read_vecs` can run: no header left announces more bytes
    /// than follow it.
    pub fn frames_complete(&self) -> (b: bool)
        ensures
            b == split_frames(self@) is Some,
    {
        proof {
            use_type_invariant(self);
        }
        frames_complete_from(self.reader.as_slice(), self.pos)
    }

    /// Reads one frame and gives back its payload.  The stream must hold a
    /// whole frame at this point; a short stream is a failed read.
    pub fn read_vec(&mut self) -> (r: Result<Vec<u8>, &str>)
        requires
            starts_with_frame(old(self)@),
        ensures
            r is Ok,
            r->Ok_0@ == first_payload(old(self)@),
            final(self)@ == after_first_frame(old(self)@),
    {
        proof {
            use_type_invariant(&*self);
        }
        let (payload, next) = decode_frame_at(self.reader.as_slice(), self.pos);
        self.pos = next;
        Ok(payload)
    }

    /// Reads frames until fewer than four bytes are left, and gives back
    /// their payloads in order.  The bytes left over are consumed.  A header
    /// that announces more bytes than follow it is a failed read.
    pub fn read_vecs(&mut self) -> (r: Result<Vec<Vec<u8>>, ()>)
        requires
            split_frames(old(self)@) is Some,
        ensures
            r is Ok,
            payload_views(r->Ok_0@) == split_frames(old(self)@)->0,
            final(self)@ == Seq::<u8>::empty(),
    {
        proof {
            use_type_invariant(&*self);
        }
        let vecs = decode_frames_from(self.reader.as_slice(), self.pos);
        self.pos = self.reader.len();
        assert(self.reader@.skip(self.pos as int) =~= Seq::<u8>::empty());
        Ok(vecs)
    }
}

} // verus!
