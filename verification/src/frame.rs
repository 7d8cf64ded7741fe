//! The frame format: a payload preceded by its length as a 32-bit
//! little-endian integer.
use vstd::prelude::*;

verus! {

/// The four little-endian bytes of `n`.
pub open spec fn le_bytes(n: u32) -> Seq<u8> {
    seq![
        (n % 256) as u8,
        ((n / 256) % 256) as u8,
        ((n / 65536) % 256) as u8,
        (n / 16777216) as u8,
    ]
}

/// The number that four little-endian bytes stand for.
pub open spec fn le_value(b: Seq<u8>) -> nat {
    (b[0] + 256 * b[1] + 65536 * b[2] + 16777216 * b[3]) as nat
}

/// One frame: the payload's length, truncated to 32 bits as the writer
/// truncates it, then the payload itself.
pub open spec fn frame(payload: Seq<u8>) -> Seq<u8> {
    le_bytes(payload.len() as u32) + payload
}

/// The frames of several payloads, one after the other.
pub open spec fn frames(payloads: Seq<Seq<u8>>) -> Seq<u8>
    decreases payloads.len(),
{
    if payloads.len() == 0 {
        Seq::empty()
    } else {
        frame(payloads[0]) + frames(payloads.drop_first())
    }
}

/// Every payload's length fits in the 32-bit header.
pub open spec fn fits_header(payloads: Seq<Seq<u8>>) -> bool {
    forall|i: int| 0 <= i < payloads.len() ==> #[trigger] payloads[i].len() <= u32::MAX
}

/// The length announced by the header at the front of `s`.
pub open spec fn announced_len(s: Seq<u8>) -> nat {
    le_value(s.take(4))
}

/// `s` begins with a complete frame: a header and as many bytes as it announces.
pub open spec fn starts_with_frame(s: Seq<u8>) -> bool {
    s.len() >= 4 && s.len() - 4 >= announced_len(s)
}

/// The payload of the frame at the front of `s`.
pub open spec fn first_payload(s: Seq<u8>) -> Seq<u8> {
    s.subrange(4, 4 + announced_len(s) as int)
}

/// What follows the frame at the front of `s`.
pub open spec fn after_first_frame(s: Seq<u8>) -> Seq<u8> {
    s.skip(4 + announced_len(s) as int)
}

/// Reading frames until no full header is left: the payloads read, or
/// `None` where a header announces more bytes than follow it.  Fewer than
/// four trailing bytes end the stream and are dropped.
pub open spec fn split_frames(s: Seq<u8>) -> Option<Seq<Seq<u8>>>
    decreases s.len(),
{
    if s.len() < 4 {
        Some(Seq::empty())
    } else if !starts_with_frame(s) {
        None
    } else {
        match split_frames(after_first_frame(s)) {
            Some(rest) => Some(seq![first_payload(s)] + rest),
            None => None,
        }
    }
}

/// A frame is four header bytes, the payload's length in base 256 with the
/// lowest digit first, followed by the payload itself.
pub proof fn lemma_frame_header(payload: Seq<u8>)
    requires
        payload.len() <= u32::MAX,
    ensures
        frame(payload).len() == 4 + payload.len(),
        frame(payload)[0] + 256 * frame(payload)[1] + 65536 * frame(payload)[2] + 16777216
            * frame(payload)[3] == payload.len(),
        frame(payload).skip(4) == payload,
{
    let n = payload.len() as u32;
    let f = frame(payload);
    let b = le_bytes(n);
    lemma_le_roundtrip(n);
    assert(f[0] == b[0] && f[1] == b[1] && f[2] == b[2] && f[3] == b[3]);
    assert(f.skip(4) =~= payload);
}

/// The length a reader takes from a header is the four bytes read in base
/// 256, the lowest digit first.
pub proof fn lemma_announced_len(s: Seq<u8>)
    requires
        s.len() >= 4,
    ensures
        announced_len(s) == s[0] + 256 * s[1] + 65536 * s[2] + 16777216 * s[3],
{
    let t = s.take(4);
    assert(t[0] == s[0] && t[1] == s[1] && t[2] == s[2] && t[3] == s[3]);
}

/// Reading a header gives back the number it was written from.
pub proof fn lemma_le_roundtrip(n: u32)
    ensures
        le_bytes(n).len() == 4,
        le_value(le_bytes(n)) == n,
{
    let b = le_bytes(n);
    assert(b[0] == n % 256);
    assert(b[1] == (n / 256) % 256);
    assert(b[2] == (n / 65536) % 256);
    assert(b[3] == n / 16777216);
}

/// A frame read from the front of a stream gives back its payload, and the
/// rest of the stream is what followed it.
pub proof fn lemma_first_frame(payload: Seq<u8>, rest: Seq<u8>)
    requires
        payload.len() <= u32::MAX,
    ensures
        starts_with_frame(frame(payload) + rest),
        first_payload(frame(payload) + rest) == payload,
        after_first_frame(frame(payload) + rest) == rest,
{
    let s = frame(payload) + rest;
    let n = payload.len() as u32;
    lemma_le_roundtrip(n);
    assert(s.take(4) =~= le_bytes(n));
    assert(announced_len(s) == payload.len());
    assert(first_payload(s) =~= payload);
    assert(after_first_frame(s) =~= rest);
}

/// Decoding undoes encoding: the frames of `payloads`, followed by any
/// `tail`, split into `payloads` followed by what `tail` splits into.
pub proof fn lemma_split_frames_of_frames(payloads: Seq<Seq<u8>>, tail: Seq<u8>)
    requires
        fits_header(payloads),
    ensures
        split_frames(frames(payloads) + tail) == match split_frames(tail) {
            Some(r) => Some(payloads + r),
            None => None::<Seq<Seq<u8>>>,
        },
    decreases payloads.len(),
{
    if payloads.len() == 0 {
        assert(frames(payloads) + tail =~= tail);
        match split_frames(tail) {
            Some(r) => {
                assert(payloads + r =~= r);
            },
            None => {},
        }
    } else {
        let p = payloads[0];
        let ps = payloads.drop_first();
        assert(fits_header(ps)) by {
            assert forall|i: int| 0 <= i < ps.len() implies #[trigger] ps[i].len() <= u32::MAX by {
                assert(ps[i] == payloads[i + 1]);
            }
        }
        assert(p.len() <= u32::MAX);
        let s = frames(payloads) + tail;
        let inner = frames(ps) + tail;
        assert(s =~= frame(p) + inner);
        lemma_first_frame(p, inner);
        lemma_split_frames_of_frames(ps, tail);
        assert(s.len() >= 4);
        match split_frames(tail) {
            Some(r) => {
                assert(seq![p] + (ps + r) =~= payloads + r);
            },
            None => {},
        }
    }
}

/// The frames of a stream that was only ever written whole read back as
/// exactly the payloads written.
pub proof fn lemma_decode_encode(payloads: Seq<Seq<u8>>)
    requires
        fits_header(payloads),
    ensures
        split_frames(frames(payloads)) == Some(payloads),
{
    lemma_split_frames_of_frames(payloads, Seq::empty());
    assert(frames(payloads) + Seq::<u8>::empty() =~= frames(payloads));
    assert(payloads + Seq::<Seq<u8>>::empty() =~= payloads);
}

/// Writing one more frame extends the encoding of the earlier ones.
pub proof fn lemma_frames_push(payloads: Seq<Seq<u8>>, p: Seq<u8>)
    ensures
        frames(payloads.push(p)) == frames(payloads) + frame(p),
    decreases payloads.len(),
{
    if payloads.len() == 0 {
        let q = payloads.push(p);
        assert(q.drop_first() =~= Seq::<Seq<u8>>::empty());
        assert(frames(q.drop_first()) =~= Seq::<u8>::empty());
        assert(q[0] == p);
        assert(frames(q) =~= frame(p));
        assert(frames(payloads) + frame(p) =~= frame(p));
    } else {
        let ps = payloads.drop_first();
        assert(payloads.push(p).drop_first() =~= ps.push(p));
        lemma_frames_push(ps, p);
        assert(frames(payloads.push(p)) =~= frame(payloads[0]) + (frames(ps) + frame(p)));
    }
}

/// A stream that holds whole frames only, with one more frame written at
/// its end, reads back as its payloads followed by the new one.
pub proof fn lemma_append_then_read_all(payloads: Seq<Seq<u8>>, p: Seq<u8>)
    requires
        fits_header(payloads),
        p.len() <= u32::MAX,
    ensures
        split_frames(frames(payloads) + frame(p)) == Some(payloads.push(p)),
{
    let all = payloads.push(p);
    assert(fits_header(all)) by {
        assert forall|i: int| 0 <= i < all.len() implies #[trigger] all[i].len() <= u32::MAX by {
            if i < payloads.len() {
                assert(all[i] == payloads[i]);
            }
        }
    }
    lemma_frames_push(payloads, p);
    lemma_decode_encode(all);
}

/// Reads the little-endian 32-bit number at `pos`.
pub fn read_le_u32(data: &[u8], pos: usize) -> (n: u32)
    requires
        pos + 4 <= data@.len(),
    ensures
        n == le_value(data@.subrange(pos as int, pos + 4)),
{
    let b0 = data[pos] as u32;
    let b1 = data[pos + 1] as u32;
    let b2 = data[pos + 2] as u32;
    let b3 = data[pos + 3] as u32;
    b0 + 256 * b1 + 65536 * b2 + 16777216 * b3
}

/// Appends the four little-endian bytes of `n`.
pub fn push_le_u32(buf: &mut Vec<u8>, n: u32)
    ensures
        final(buf)@ == old(buf)@ + le_bytes(n),
{
    buf.push((n % 256) as u8);
    buf.push(((n / 256) % 256) as u8);
    buf.push(((n / 65536) % 256) as u8);
    buf.push((n / 16777216) as u8);
    assert(final(buf)@ =~= old(buf)@ + le_bytes(n));
}

/// Appends `payload` to `buf`, byte by byte.
pub fn push_bytes(buf: &mut Vec<u8>, payload: &[u8])
    ensures
        final(buf)@ == old(buf)@ + payload@,
{
    let ghost start = buf@;
    let mut i: usize = 0;
    while i < payload.len()
        invariant
            i <= payload@.len(),
            buf@ == start + payload@.take(i as int),
        decreases payload@.len() - i,
    {
        buf.push(payload[i]);
        i = i + 1;
        assert(buf@ =~= start + payload@.take(i as int));
    }
    assert(payload@.take(i as int) =~= payload@);
}

/// Appends one frame carrying `payload`.  The length header holds the
/// payload's length truncated to 32 bits.
pub fn append_frame(buf: &mut Vec<u8>, payload: &[u8])
    ensures
        final(buf)@ == old(buf)@ + frame(payload@),
{
    let length = payload.len() as u32;
    push_le_u32(buf, length);
    push_bytes(buf, payload);
    assert(final(buf)@ =~= old(buf)@ + frame(payload@));
}

/// The frame carrying `payload`, as a byte vector of its own.
pub fn encode_frame(payload: &[u8]) -> (out: Vec<u8>)
    ensures
        out@ == frame(payload@),
{
    let mut out: Vec<u8> = Vec::new();
    append_frame(&mut out, payload);
    assert(out@ =~= frame(payload@));
    out
}

/// Whether a whole frame starts at `pos`.
pub fn frame_complete_at(data: &[u8], pos: usize) -> (b: bool)
    requires
        pos <= data@.len(),
    ensures
        b == starts_with_frame(data@.skip(pos as int)),
{
    if data.len() - pos < 4 {
        return false;
    }
    let n = read_le_u32(data, pos);
    assert(data@.skip(pos as int).take(4) =~= data@.subrange(pos as int, pos + 4));
    (data.len() - pos - 4) as u64 >= n as u64
}

/// Whether the frames from `pos` on can all be read: no header announces
/// more bytes than follow it.
pub fn frames_complete_from(data: &[u8], pos: usize) -> (b: bool)
    requires
        pos <= data@.len(),
    ensures
        b == split_frames(data@.skip(pos as int)) is Some,
{
    let mut cur = pos;
    while data.len() - cur >= 4
        invariant
            pos <= cur <= data@.len(),
            (split_frames(data@.skip(pos as int)) is Some) == (split_frames(
                data@.skip(cur as int),
            ) is Some),
        decreases data@.len() - cur,
    {
        if !frame_complete_at(data, cur) {
            return false;
        }
        let ghost s = data@.skip(cur as int);
        let n = read_le_u32(data, cur);
        assert(s.take(4) =~= data@.subrange(cur as int, cur + 4));
        let next = cur + 4 + n as usize;
        assert(data@.skip(next as int) =~= after_first_frame(s));
        cur = next;
    }
    true
}

/// Reads the frame that starts at `pos`: its payload and the position just
/// past it.
pub fn decode_frame_at(data: &[u8], pos: usize) -> (res: (Vec<u8>, usize))
    requires
        pos <= data@.len(),
        starts_with_frame(data@.skip(pos as int)),
    ensures
        res.0@ == first_payload(data@.skip(pos as int)),
        pos < res.1 <= data@.len(),
        data@.skip(res.1 as int) == after_first_frame(data@.skip(pos as int)),
{
    let ghost s = data@.skip(pos as int);
    let n = read_le_u32(data, pos);
    assert(s.take(4) =~= data@.subrange(pos as int, pos + 4));
    let len = data.len();
    assert(n == announced_len(s));
    assert(s.len() == len - pos);
    let start = pos + 4;
    let end = start + n as usize;
    let mut payload: Vec<u8> = Vec::new();
    let mut i: usize = start;
    while i < end
        invariant
            start <= i <= end,
            end <= data@.len(),
            payload@ == data@.subrange(start as int, i as int),
        decreases end - i,
    {
        payload.push(data[i]);
        i = i + 1;
        assert(payload@ =~= data@.subrange(start as int, i as int));
    }
    assert(payload@ =~= first_payload(s));
    assert(data@.skip(end as int) =~= after_first_frame(s));
    (payload, end)
}

/// The byte sequences held by a list of vectors.
pub open spec fn payload_views(v: Seq<Vec<u8>>) -> Seq<Seq<u8>> {
    v.map_values(|x: Vec<u8>| x@)
}

/// Reads every frame from `pos` to the end of the data.
pub fn decode_frames_from(data: &[u8], pos: usize) -> (out: Vec<Vec<u8>>)
    requires
        pos <= data@.len(),
        split_frames(data@.skip(pos as int)) is Some,
    ensures
        payload_views(out@) == split_frames(data@.skip(pos as int))->0,
{
    let ghost all = split_frames(data@.skip(pos as int))->0;
    let mut out: Vec<Vec<u8>> = Vec::new();
    let mut cur = pos;
    while data.len() - cur >= 4
        invariant
            pos <= cur <= data@.len(),
            split_frames(data@.skip(cur as int)) is Some,
            all == payload_views(out@) + split_frames(data@.skip(cur as int))->0,
        decreases data@.len() - cur,
    {
        let ghost s = data@.skip(cur as int);
        assert(s.len() >= 4);
        let (payload, next) = decode_frame_at(data, cur);
        let ghost rest = split_frames(after_first_frame(s))->0;
        assert(split_frames(s)->0 == seq![first_payload(s)] + rest);
        let ghost before = payload_views(out@);
        out.push(payload);
        assert(payload_views(out@) =~= before.push(first_payload(s)));
        cur = next;
        assert(all =~= payload_views(out@) + split_frames(data@.skip(cur as int))->0);
    }
    assert(split_frames(data@.skip(cur as int))->0 =~= Seq::<Seq<u8>>::empty());
    assert(payload_views(out@) =~= all);
    out
}

} // verus!
