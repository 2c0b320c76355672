//! Length-prefixed frames: `be_u32(len) || payload`, with payloads of at
//! most 65535 bytes, written to an output buffer and taken incrementally
//! from a carry buffer that holds what the stream delivered so far.

use vstd::prelude::*;
use crate::bytes::{append_bytes, be32, copy_range, from_be32, lemma_be32_round_trip, push_be32, read_be32};

verus! {

/// The largest payload a frame may carry.
pub const MAX_FRAME: usize = 65535;

#[derive(Debug, Clone, Copy, PartialEq, Eq, Structural)]
pub enum FrameError {
    /// The payload, or the announced length, exceeds `MAX_FRAME`.
    TooLarge,
}

/// The wire form of one frame.
pub open spec fn frame_bytes(payload: Seq<u8>) -> Seq<u8> {
    be32(payload.len() as u32) + payload
}

/// What a carry buffer holds at its front.
pub enum FrameParse {
    /// Fewer bytes than the next frame needs.
    Incomplete,
    /// The announced length exceeds `MAX_FRAME`.
    TooLarge,
    /// A whole frame: its payload and the bytes after it.
    Frame(Seq<u8>, Seq<u8>),
}

pub open spec fn parse_frame(c: Seq<u8>) -> FrameParse {
    if c.len() < 4 {
        FrameParse::Incomplete
    } else {
        let n = from_be32(c.subrange(0, 4)) as int;
        if n > MAX_FRAME {
            FrameParse::TooLarge
        } else if c.len() < 4 + n {
            FrameParse::Incomplete
        } else {
            FrameParse::Frame(c.subrange(4, 4 + n), c.subrange(4 + n, c.len() as int))
        }
    }
}

/// Appends the frame of `data` to `out`; a payload over `MAX_FRAME` is
/// refused and `out` is left untouched.
pub fn send_frame(out: &mut Vec<u8>, data: &[u8]) -> (r: Result<(), FrameError>)
    ensures
        data@.len() <= MAX_FRAME ==> r is Ok && final(out)@ == old(out)@ + frame_bytes(data@),
        data@.len() > MAX_FRAME ==> r == Err::<(), FrameError>(FrameError::TooLarge)
            && final(out)@ == old(out)@,
{
    if data.len() > MAX_FRAME {
        return Err(FrameError::TooLarge);
    }
    push_be32(out, data.len() as u32);
    append_bytes(out, data);
    assert(final(out)@ =~= old(out)@ + frame_bytes(data@));
    Ok(())
}

/// Takes the next whole frame off the front of `carry`. While the carry
/// holds only part of a frame nothing is taken; an announced length over
/// `MAX_FRAME` is an error.
pub fn recv_frame(carry: &mut Vec<u8>) -> (r: Result<Option<Vec<u8>>, FrameError>)
    ensures
        parse_frame(old(carry)@) is Incomplete ==> r == Ok::<Option<Vec<u8>>, FrameError>(None)
            && final(carry)@ == old(carry)@,
        parse_frame(old(carry)@) is TooLarge ==> r == Err::<Option<Vec<u8>>, FrameError>(
            FrameError::TooLarge,
        ) && final(carry)@ == old(carry)@,
        parse_frame(old(carry)@) is Frame ==> r is Ok && r->Ok_0 is Some && r->Ok_0->Some_0@
            == parse_frame(old(carry)@)->Frame_0 && final(carry)@ == parse_frame(
            old(carry)@,
        )->Frame_1,
{
    if carry.len() < 4 {
        return Ok(None);
    }
    let n = read_be32(carry.as_slice(), 0);
    if n as usize > MAX_FRAME {
        return Err(FrameError::TooLarge);
    }
    let total = 4 + n as usize;
    if carry.len() < total {
        return Ok(None);
    }
    let payload = copy_range(carry.as_slice(), 4, total);
    let rest = copy_range(carry.as_slice(), total, carry.len());
    *carry = rest;
    Ok(Some(payload))
}

/// Reading back what was written: a frame of any payload within the bound,
/// followed by any further bytes, yields exactly that payload and leaves
/// exactly those bytes.
pub proof fn lemma_frame_round_trip(payload: Seq<u8>, rest: Seq<u8>)
    requires
        payload.len() <= MAX_FRAME,
    ensures
        parse_frame(frame_bytes(payload) + rest) == FrameParse::Frame(payload, rest),
{
    let c = frame_bytes(payload) + rest;
    lemma_be32_round_trip(payload.len() as u32);
    assert(c.subrange(0, 4) =~= be32(payload.len() as u32));
    assert(c.subrange(4, 4 + payload.len() as int) =~= payload);
    assert(c.subrange(4 + payload.len() as int, c.len() as int) =~= rest);
}

/// A strict prefix of a frame never yields a frame.
pub proof fn lemma_partial_frame(payload: Seq<u8>, k: int)
    requires
        payload.len() <= MAX_FRAME,
        0 <= k < frame_bytes(payload).len(),
    ensures
        parse_frame(frame_bytes(payload).subrange(0, k)) is Incomplete,
{
    let c = frame_bytes(payload).subrange(0, k);
    lemma_be32_round_trip(payload.len() as u32);
    if k >= 4 {
        assert(c.subrange(0, 4) =~= be32(payload.len() as u32));
    }
}

} // verus!
