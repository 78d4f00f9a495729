//! Length-prefixed framing shared by the tunnel and the control plane.
//!
//! A frame is a 4-byte big-endian length `L` followed by `L` payload bytes.
//! A frame of length zero marks the end of the stream.

use vstd::prelude::*;

verus! {

/// Largest payload a frame may carry.
pub const MAX_FRAME_LEN: u32 = 0x0400_0000;

/// Number of bytes in a frame header.
pub const HEADER_LEN: usize = 4;

/// The four big-endian bytes of `n`.
pub open spec fn be32_bytes(n: u32) -> Seq<u8> {
    seq![
        (n / 0x100_0000) as u8,
        ((n / 0x1_0000) % 0x100) as u8,
        ((n / 0x100) % 0x100) as u8,
        (n % 0x100) as u8,
    ]
}

/// The number that four big-endian bytes stand for.
pub open spec fn be32_value(b: Seq<u8>) -> int
    recommends
        b.len() >= 4,
{
    b[0] * 0x100_0000 + b[1] * 0x1_0000 + b[2] * 0x100 + b[3]
}

/// The bytes of one frame carrying `payload`.
pub open spec fn frame_of(payload: Seq<u8>) -> Seq<u8> {
    be32_bytes(payload.len() as u32) + payload
}

/// The end-of-stream marker: a frame of length zero.
pub open spec fn terminator() -> Seq<u8> {
    be32_bytes(0)
}

/// A payload that a frame can carry without being read as end of stream.
pub open spec fn sendable(payload: Seq<u8>) -> bool {
    0 < payload.len() <= MAX_FRAME_LEN
}

/// What the start of a buffer holds, as far as framing is concerned.
pub enum Decoded {
    /// Fewer bytes than a whole frame: at least `needed` bytes are required.
    NeedMore { needed: usize },
    /// The end-of-stream frame, `HEADER_LEN` bytes long.
    End,
    /// A whole frame whose payload is `payload`; it spans `consumed` bytes.
    Frame { payload: Vec<u8>, consumed: usize },
    /// A header announcing a payload longer than `MAX_FRAME_LEN`.
    TooLarge { len: u32 },
}

/// What a frame header announces.
#[derive(PartialEq, Eq, Structural, Debug, Clone, Copy)]
pub enum Header {
    /// The end-of-stream frame.
    End,
    /// A payload of the given length follows.
    Payload(u32),
    /// A payload longer than `MAX_FRAME_LEN` is announced.
    TooLarge(u32),
}

/// Why a payload cannot be framed.
#[derive(PartialEq, Eq, Structural, Debug, Clone, Copy)]
pub enum FrameError {
    /// An empty payload would read as the end of the stream.
    EmptyPayload,
    /// The payload is longer than `MAX_FRAME_LEN`.
    TooLarge,
}

/// The header that a length `n` announces.
pub open spec fn header_spec(n: int) -> Header {
    if n == 0 {
        Header::End
    } else if n <= MAX_FRAME_LEN {
        Header::Payload(n as u32)
    } else {
        Header::TooLarge(n as u32)
    }
}

/// Frames found in `b`, in order, up to the end-of-stream frame; `None`
/// when `b` runs out, or announces an oversized frame, before that.
pub open spec fn stream_payloads(b: Seq<u8>) -> Option<Seq<Seq<u8>>>
    decreases b.len(),
{
    if b.len() < 4 {
        None
    } else {
        let n = be32_value(b);
        if n == 0 {
            Some(Seq::empty())
        } else if n > MAX_FRAME_LEN || b.len() < 4 + n {
            None
        } else {
            match stream_payloads(b.skip(4 + n)) {
                Some(rest) => Some(seq![b.subrange(4, 4 + n)] + rest),
                None => None,
            }
        }
    }
}

/// The bytes of the frames carrying `ps`, one after the other.
pub open spec fn frames_of(ps: Seq<Seq<u8>>) -> Seq<u8>
    decreases ps.len(),
{
    if ps.len() == 0 {
        Seq::empty()
    } else {
        frame_of(ps[0]) + frames_of(ps.drop_first())
    }
}

/// Reading four bytes written for `n` gives back `n`.
pub proof fn lemma_be32_round_trip(n: u32)
    ensures
        be32_bytes(n).len() == 4,
        be32_value(be32_bytes(n)) == n,
{
    let x = n as int;
    let m1 = x / 0x100;
    let m2 = m1 / 0x100;
    assert(x == 0x100 * m1 + x % 0x100);
    assert(m1 == 0x100 * m2 + m1 % 0x100);
    assert(m2 == 0x100 * (m2 / 0x100) + m2 % 0x100);
    assert(x / 0x1_0000 == m2) by {
        vstd::arithmetic::div_mod::lemma_div_denominator(x, 0x100, 0x100);
    }
    assert(x / 0x100_0000 == m2 / 0x100) by {
        vstd::arithmetic::div_mod::lemma_div_denominator(x, 0x1_0000, 0x100);
    }
    assert(m2 / 0x100 < 0x100);
}

/// Writes the big-endian bytes of `n` at the end of `out`.
fn push_be32(out: &mut Vec<u8>, n: u32)
    ensures
        final(out)@ == old(out)@ + be32_bytes(n),
{
    out.push((n / 0x100_0000) as u8);
    out.push(((n / 0x1_0000) % 0x100) as u8);
    out.push(((n / 0x100) % 0x100) as u8);
    out.push((n % 0x100) as u8);
    assert(final(out)@ =~= old(out)@ + be32_bytes(n));
}

/// Frames `payload` for sending: its length, big-endian, then its bytes.
pub fn encode_frame(payload: &[u8]) -> (r: Result<Vec<u8>, FrameError>)
    ensures
        payload@.len() == 0 ==> r == Err::<Vec<u8>, FrameError>(FrameError::EmptyPayload),
        payload@.len() > MAX_FRAME_LEN ==> r == Err::<Vec<u8>, FrameError>(FrameError::TooLarge),
        sendable(payload@) ==> (r matches Ok(v) && v@ == frame_of(payload@)),
{
    let len = payload.len();
    if len == 0 {
        return Err(FrameError::EmptyPayload);
    }
    if len > MAX_FRAME_LEN as usize {
        return Err(FrameError::TooLarge);
    }
    let mut out: Vec<u8> = Vec::with_capacity(HEADER_LEN + len);
    push_be32(&mut out, len as u32);
    let mut i: usize = 0;
    while i < len
        invariant
            len == payload@.len(),
            i <= len,
            out@ == be32_bytes(len as u32) + payload@.subrange(0, i as int),
        decreases len - i,
    {
        out.push(payload[i]);
        i = i + 1;
        assert(out@ =~= be32_bytes(len as u32) + payload@.subrange(0, i as int));
    }
    assert(payload@.subrange(0, len as int) =~= payload@);
    Ok(out)
}

/// The end-of-stream frame.
pub fn end_of_stream() -> (r: Vec<u8>)
    ensures
        r@ == terminator(),
        r@ == seq![0u8, 0u8, 0u8, 0u8],
{
    let mut out: Vec<u8> = Vec::with_capacity(HEADER_LEN);
    push_be32(&mut out, 0);
    assert(out@ =~= seq![0u8, 0u8, 0u8, 0u8]);
    out
}

/// Reads the frame header held in the first four bytes of `b`.
pub fn parse_header(b: &[u8]) -> (r: Option<Header>)
    ensures
        b@.len() < 4 ==> r is None,
        b@.len() >= 4 ==> r == Some(header_spec(be32_value(b@))),
{
    if b.len() < HEADER_LEN {
        return None;
    }
    let n: u64 = (b[0] as u64) * 0x100_0000 + (b[1] as u64) * 0x1_0000 + (b[2] as u64) * 0x100
        + (b[3] as u64);
    assert(n == be32_value(b@));
    assert(n <= 0xffff_ffff);
    if n == 0 {
        Some(Header::End)
    } else if n <= MAX_FRAME_LEN as u64 {
        Some(Header::Payload(n as u32))
    } else {
        Some(Header::TooLarge(n as u32))
    }
}

/// Decodes the frame at the start of `b`.
pub fn decode_frame(b: &[u8]) -> (r: Decoded)
    ensures
        b@.len() < 4 ==> r == (Decoded::NeedMore { needed: HEADER_LEN }),
        b@.len() >= 4 ==> {
            let n = be32_value(b@);
            &&& n == 0 ==> r is End
            &&& n > MAX_FRAME_LEN ==> r == (Decoded::TooLarge { len: n as u32 })
            &&& 0 < n <= MAX_FRAME_LEN && b@.len() < 4 + n ==> r == (Decoded::NeedMore {
                needed: (4 + n) as usize,
            })
            &&& 0 < n <= MAX_FRAME_LEN && b@.len() >= 4 + n ==> (r matches Decoded::Frame {
                payload,
                consumed,
            } && payload@ == b@.subrange(4, 4 + n) && consumed == 4 + n)
        },
{
    match parse_header(b) {
        None => Decoded::NeedMore { needed: HEADER_LEN },
        Some(Header::End) => Decoded::End,
        Some(Header::TooLarge(len)) => Decoded::TooLarge { len },
        Some(Header::Payload(len)) => {
            let total = HEADER_LEN + len as usize;
            if b.len() < total {
                return Decoded::NeedMore { needed: total };
            }
            let mut payload: Vec<u8> = Vec::with_capacity(len as usize);
            let mut i: usize = HEADER_LEN;
            while i < total
                invariant
                    total == 4 + len,
                    total <= b@.len(),
                    4 <= i <= total,
                    payload@ == b@.subrange(4, i as int),
                decreases total - i,
            {
                payload.push(b[i]);
                i = i + 1;
                assert(payload@ =~= b@.subrange(4, i as int));
            }
            Decoded::Frame { payload, consumed: total }
        },
    }
}

/// A frame decodes to the payload it was built from, whatever follows it.
pub proof fn lemma_frame_round_trip(payload: Seq<u8>, rest: Seq<u8>)
    requires
        sendable(payload),
    ensures
        be32_value(frame_of(payload) + rest) == payload.len(),
        (frame_of(payload) + rest).subrange(4, 4 + payload.len() as int) == payload,
        (frame_of(payload) + rest).skip(4 + payload.len() as int) == rest,
{
    let b = frame_of(payload) + rest;
    lemma_be32_round_trip(payload.len() as u32);
    assert(b.subrange(4, 4 + payload.len() as int) =~= payload);
    assert(b.skip(4 + payload.len() as int) =~= rest);
}

/// A stream written as frames, then the end-of-stream frame, reads back as
/// exactly those payloads, in order, and nothing after the end-of-stream
/// frame is read.
pub proof fn lemma_stream_ends_at_terminator(ps: Seq<Seq<u8>>, rest: Seq<u8>)
    requires
        forall|i: int| 0 <= i < ps.len() ==> #[trigger] sendable(ps[i]),
    ensures
        stream_payloads(frames_of(ps) + terminator() + rest) == Some(ps),
    decreases ps.len(),
{
    if ps.len() == 0 {
        lemma_be32_round_trip(0);
        assert(frames_of(ps) + terminator() + rest =~= terminator() + rest);
    } else {
        let tail = ps.drop_first();
        assert forall|i: int| 0 <= i < tail.len() implies #[trigger] sendable(tail[i]) by {
            assert(sendable(ps[i + 1]));
        }
        lemma_stream_ends_at_terminator(tail, rest);
        let after = frames_of(tail) + terminator() + rest;
        assert(sendable(ps[0]));
        lemma_frame_round_trip(ps[0], after);
        assert(frames_of(ps) + terminator() + rest =~= frame_of(ps[0]) + after);
        assert(seq![ps[0]] + tail =~= ps);
    }
}

} // verus!
