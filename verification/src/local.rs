//! The local backend: a guest and its host exchange frames through three
//! channels, the inputs, the private outputs and the public outputs.  Each
//! channel is a file that grows as frames are written to it and that a
//! reader consumes from the front.
use vstd::prelude::*;
use crate::frame::{
    after_first_frame, append_frame, decode_frame_at, decode_frames_from, first_payload, frame,
    frame_complete_at, frames_complete_from, payload_views, split_frames, starts_with_frame,
};

verus! {

/// One channel: everything written to it, and how far it has been read.
pub struct Channel {
    file: Vec<u8>,
    read_pos: usize,
}

impl Channel {
    #[verifier::type_invariant]
    spec fn inv(self) -> bool {
        self.read_pos <= self.file@.len()
    }

    /// Every byte written to the channel.
    pub closed spec fn written(self) -> Seq<u8> {
        self.file@
    }

    /// The bytes written but not read yet.
    pub closed spec fn unread(self) -> Seq<u8> {
        self.file@.skip(self.read_pos as int)
    }

    /// A channel that holds nothing.
    pub fn new() -> (c: Self)
        ensures
            c.written() == Seq::<u8>::empty(),
            c.unread() == Seq::<u8>::empty(),
    {
        let c = Channel { file: Vec::new(), read_pos: 0 };
        assert(c.file@.skip(0) =~= Seq::<u8>::empty());
        c
    }

    /// Writes `value` as one frame at the end of the channel.
    fn write_slice(&mut self, value: &[u8])
        ensures
            final(self).written() == old(self).written() + frame(value@),
            final(self).unread() == old(self).unread() + frame(value@),
    {
        proof {
            use_type_invariant(&*self);
        }
        let mut taken = Channel::new();
        std::mem::swap(self, &mut taken);
        let Channel { mut file, read_pos } = taken;
        let ghost before = file@;
        append_frame(&mut file, value);
        assert(file@.skip(read_pos as int) =~= before.skip(read_pos as int) + frame(value@));
        *self = Channel { file, read_pos };
    }

    /// Whether a whole frame is waiting to be read.
    fn frame_ready(&self) -> (b: bool)
        ensures
            b == starts_with_frame(self.unread()),
    {
        proof {
            use_type_invariant(self);
        }
        frame_complete_at(self.file.as_slice(), self.read_pos)
    }

    /// Whether every frame left can be read whole.
    fn frames_ready(&self) -> (b: bool)
        ensures
            b == split_frames(self.unread()) is Some,
    {
        proof {
            use_type_invariant(self);
        }
        frames_complete_from(self.file.as_slice(), self.read_pos)
    }

    /// Reads the next frame.
    fn read_vec(&mut self) -> (v: Vec<u8>)
        requires
            starts_with_frame(old(self).unread()),
        ensures
            v@ == first_payload(old(self).unread()),
            final(self).unread() == after_first_frame(old(self).unread()),
            final(self).written() == old(self).written(),
    {
        proof {
            use_type_invariant(&*self);
        }
        let (payload, next) = decode_frame_at(self.file.as_slice(), self.read_pos);
        self.read_pos = next;
        payload
    }

    /// Reads every frame left, consuming the channel to its end.
    fn read_vecs(&mut self) -> (vs: Vec<Vec<u8>>)
        requires
            split_frames(old(self).unread()) is Some,
        ensures
            payload_views(vs@) == split_frames(old(self).unread())->0,
            final(self).unread() == Seq::<u8>::empty(),
            final(self).written() == old(self).written(),
    {
        proof {
            use_type_invariant(&*self);
        }
        let vs = decode_frames_from(self.file.as_slice(), self.read_pos);
        self.read_pos = self.file.len();
        assert(self.file@.skip(self.read_pos as int) =~= Seq::<u8>::empty());
        vs
    }
}

/// The three channels of the local backend.
pub struct Streams {
    inputs: Channel,
    private_outputs: Channel,
    public_outputs: Channel,
}

impl Streams {
    /// The channel that carries inputs to the guest.
    pub closed spec fn inputs(self) -> Channel {
        self.inputs
    }

    /// The channel of outputs the guest keeps private.
    pub closed spec fn private_outputs(self) -> Channel {
        self.private_outputs
    }

    /// The channel of outputs the guest commits publicly.
    pub closed spec fn public_outputs(self) -> Channel {
        self.public_outputs
    }

    /// Three empty channels.
    pub fn new() -> (s: Self)
        ensures
            s.inputs().written() == Seq::<u8>::empty(),
            s.inputs().unread() == Seq::<u8>::empty(),
            s.private_outputs().written() == Seq::<u8>::empty(),
            s.private_outputs().unread() == Seq::<u8>::empty(),
            s.public_outputs().written() == Seq::<u8>::empty(),
            s.public_outputs().unread() == Seq::<u8>::empty(),
    {
        Streams { inputs: Channel::new(), private_outputs: Channel::new(), public_outputs: Channel::new() }
    }
}

impl Streams {
    /// Whether a whole input frame is waiting, so that `read_vec` can run.
    pub fn input_ready(&self) -> (b: bool)
        ensures
            b == starts_with_frame(self.inputs().unread()),
    {
        self.inputs.frame_ready()
    }

    /// Whether `read_private_output_vecs` can run.
    pub fn private_outputs_ready(&self) -> (b: bool)
        ensures
            b == split_frames(self.private_outputs().unread()) is Some,
    {
        self.private_outputs.frames_ready()
    }

    /// Whether `read_public_outputs_vecs` can run.
    pub fn public_outputs_ready(&self) -> (b: bool)
        ensures
            b == split_frames(self.public_outputs().unread()) is Some,
    {
        self.public_outputs.frames_ready()
    }
}

/// Writes `value` as one frame to the private outputs.
pub fn write_slice(streams: &mut Streams, value: &[u8])
    ensures
        final(streams).private_outputs().written() == old(streams).private_outputs().written()
            + frame(value@),
        final(streams).private_outputs().unread() == old(streams).private_outputs().unread()
            + frame(value@),
        final(streams).inputs() == old(streams).inputs(),
        final(streams).public_outputs() == old(streams).public_outputs(),
{
    streams.private_outputs.write_slice(value);
}

/// Writes `value` as one frame to the public outputs.
pub fn commit_slice(streams: &mut Streams, value: &[u8])
    ensures
        final(streams).public_outputs().written() == old(streams).public_outputs().written()
            + frame(value@),
        final(streams).public_outputs().unread() == old(streams).public_outputs().unread()
            + frame(value@),
        final(streams).inputs() == old(streams).inputs(),
        final(streams).private_outputs() == old(streams).private_outputs(),
{
    streams.public_outputs.write_slice(value);
}

/// Writes `value` as one frame to the inputs.
pub fn write_input_slice(streams: &mut Streams, value: &[u8])
    ensures
        final(streams).inputs().written() == old(streams).inputs().written() + frame(value@),
        final(streams).inputs().unread() == old(streams).inputs().unread() + frame(value@),
        final(streams).private_outputs() == old(streams).private_outputs(),
        final(streams).public_outputs() == old(streams).public_outputs(),
{
    streams.inputs.write_slice(value);
}

/// Reads the next input frame.  The inputs must hold a whole frame; reading
/// past the last input fails.
pub fn read_vec(streams: &mut Streams) -> (v: Vec<u8>)
    requires
        starts_with_frame(old(streams).inputs().unread()),
    ensures
        v@ == first_payload(old(streams).inputs().unread()),
        final(streams).inputs().unread() == after_first_frame(old(streams).inputs().unread()),
        final(streams).inputs().written() == old(streams).inputs().written(),
        final(streams).private_outputs() == old(streams).private_outputs(),
        final(streams).public_outputs() == old(streams).public_outputs(),
{
    streams.inputs.read_vec()
}

/// Reads every private output frame not read yet.
pub fn read_private_output_vecs(streams: &mut Streams) -> (vs: Vec<Vec<u8>>)
    requires
        split_frames(old(streams).private_outputs().unread()) is Some,
    ensures
        payload_views(vs@) == split_frames(old(streams).private_outputs().unread())->0,
        final(streams).private_outputs().unread() == Seq::<u8>::empty(),
        final(streams).private_outputs().written() == old(streams).private_outputs().written(),
        final(streams).inputs() == old(streams).inputs(),
        final(streams).public_outputs() == old(streams).public_outputs(),
{
    streams.private_outputs.read_vecs()
}

/// Reads every public output frame not read yet.
pub fn read_public_outputs_vecs(streams: &mut Streams) -> (vs: Vec<Vec<u8>>)
    requires
        split_frames(old(streams).public_outputs().unread()) is Some,
    ensures
        payload_views(vs@) == split_frames(old(streams).public_outputs().unread())->0,
        final(streams).public_outputs().unread() == Seq::<u8>::empty(),
        final(streams).public_outputs().written() == old(streams).public_outputs().written(),
        final(streams).inputs() == old(streams).inputs(),
        final(streams).private_outputs() == old(streams).private_outputs(),
{
    streams.public_outputs.read_vecs()
}

} // verus!
