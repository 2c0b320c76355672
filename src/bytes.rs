//! Byte-level helpers shared by the codecs: big-endian integers and copies
//! of byte ranges.

use vstd::prelude::*;

verus! {

/// The 4-byte big-endian encoding of `x`.
pub open spec fn be32(x: u32) -> Seq<u8> {
    seq![
        ((x >> 24u32) & 0xffu32) as u8,
        ((x >> 16u32) & 0xffu32) as u8,
        ((x >> 8u32) & 0xffu32) as u8,
        (x & 0xffu32) as u8,
    ]
}

/// The value of four big-endian bytes.
pub open spec fn from_be32(b: Seq<u8>) -> u32
    recommends
        b.len() == 4,
{
    ((b[0] as u32) << 24u32) | ((b[1] as u32) << 16u32) | ((b[2] as u32) << 8u32) | (b[3] as u32)
}

/// The 8-byte big-endian encoding of `x`.
pub open spec fn be64(x: u64) -> Seq<u8> {
    seq![
        ((x >> 56u64) & 0xffu64) as u8,
        ((x >> 48u64) & 0xffu64) as u8,
        ((x >> 40u64) & 0xffu64) as u8,
        ((x >> 32u64) & 0xffu64) as u8,
        ((x >> 24u64) & 0xffu64) as u8,
        ((x >> 16u64) & 0xffu64) as u8,
        ((x >> 8u64) & 0xffu64) as u8,
        (x & 0xffu64) as u8,
    ]
}

/// The value of eight big-endian bytes.
pub open spec fn from_be64(b: Seq<u8>) -> u64
    recommends
        b.len() == 8,
{
    ((b[0] as u64) << 56u64) | ((b[1] as u64) << 48u64) | ((b[2] as u64) << 40u64) | ((
    b[3] as u64) << 32u64) | ((b[4] as u64) << 24u64) | ((b[5] as u64) << 16u64) | ((b[6] as u64)
        << 8u64) | (b[7] as u64)
}

proof fn lemma_low_byte32(y: u32)
    ensures
        y & 0xffu32 <= 0xffu32,
{
    assert(y & 0xffu32 <= 0xffu32) by (bit_vector);
}

proof fn lemma_low_byte64(y: u64)
    ensures
        y & 0xffu64 <= 0xffu64,
{
    assert(y & 0xffu64 <= 0xffu64) by (bit_vector);
}

pub proof fn lemma_be32_round_trip(x: u32)
    ensures
        be32(x).len() == 4,
        from_be32(be32(x)) == x,
{
    let b = be32(x);
    lemma_low_byte32(x >> 24u32);
    lemma_low_byte32(x >> 16u32);
    lemma_low_byte32(x >> 8u32);
    lemma_low_byte32(x);
    assert(b[0] as u32 == (x >> 24u32) & 0xffu32);
    assert(b[1] as u32 == (x >> 16u32) & 0xffu32);
    assert(b[2] as u32 == (x >> 8u32) & 0xffu32);
    assert(b[3] as u32 == x & 0xffu32);
    assert((((x >> 24u32) & 0xffu32) << 24u32) | (((x >> 16u32) & 0xffu32) << 16u32) | (((x
        >> 8u32) & 0xffu32) << 8u32) | (x & 0xffu32) == x) by (bit_vector);
}

pub proof fn lemma_be64_round_trip(x: u64)
    ensures
        be64(x).len() == 8,
        from_be64(be64(x)) == x,
{
    let b = be64(x);
    lemma_low_byte64(x >> 56u64);
    lemma_low_byte64(x >> 48u64);
    lemma_low_byte64(x >> 40u64);
    lemma_low_byte64(x >> 32u64);
    lemma_low_byte64(x >> 24u64);
    lemma_low_byte64(x >> 16u64);
    lemma_low_byte64(x >> 8u64);
    lemma_low_byte64(x);
    assert(b[0] as u64 == (x >> 56u64) & 0xffu64);
    assert(b[1] as u64 == (x >> 48u64) & 0xffu64);
    assert(b[2] as u64 == (x >> 40u64) & 0xffu64);
    assert(b[3] as u64 == (x >> 32u64) & 0xffu64);
    assert(b[4] as u64 == (x >> 24u64) & 0xffu64);
    assert(b[5] as u64 == (x >> 16u64) & 0xffu64);
    assert(b[6] as u64 == (x >> 8u64) & 0xffu64);
    assert(b[7] as u64 == x & 0xffu64);
    assert((((x >> 56u64) & 0xffu64) << 56u64) | (((x >> 48u64) & 0xffu64) << 48u64) | (((x
        >> 40u64) & 0xffu64) << 40u64) | (((x >> 32u64) & 0xffu64) << 32u64) | (((x >> 24u64)
        & 0xffu64) << 24u64) | (((x >> 16u64) & 0xffu64) << 16u64) | (((x >> 8u64) & 0xffu64)
        << 8u64) | (x & 0xffu64) == x) by (bit_vector);
}

/// Appends the bytes of `x` in big-endian order.
pub fn push_be32(out: &mut Vec<u8>, x: u32)
    ensures
        final(out)@ == old(out)@ + be32(x),
{
    out.push(((x >> 24u32) & 0xffu32) as u8);
    out.push(((x >> 16u32) & 0xffu32) as u8);
    out.push(((x >> 8u32) & 0xffu32) as u8);
    out.push((x & 0xffu32) as u8);
    assert(final(out)@ =~= old(out)@ + be32(x));
}

/// Appends the bytes of `x` in big-endian order.
pub fn push_be64(out: &mut Vec<u8>, x: u64)
    ensures
        final(out)@ == old(out)@ + be64(x),
{
    out.push(((x >> 56u64) & 0xffu64) as u8);
    out.push(((x >> 48u64) & 0xffu64) as u8);
    out.push(((x >> 40u64) & 0xffu64) as u8);
    out.push(((x >> 32u64) & 0xffu64) as u8);
    out.push(((x >> 24u64) & 0xffu64) as u8);
    out.push(((x >> 16u64) & 0xffu64) as u8);
    out.push(((x >> 8u64) & 0xffu64) as u8);
    out.push((x & 0xffu64) as u8);
    assert(final(out)@ =~= old(out)@ + be64(x));
}

/// Reads four big-endian bytes starting at `at`.
pub fn read_be32(b: &[u8], at: usize) -> (r: u32)
    requires
        at + 4 <= b@.len(),
    ensures
        r == from_be32(b@.subrange(at as int, at + 4)),
{
    ((b[at] as u32) << 24u32) | ((b[at + 1] as u32) << 16u32) | ((b[at + 2] as u32) << 8u32) | (
    b[at + 3] as u32)
}

/// Reads eight big-endian bytes starting at `at`.
pub fn read_be64(b: &[u8], at: usize) -> (r: u64)
    requires
        at + 8 <= b@.len(),
    ensures
        r == from_be64(b@.subrange(at as int, at + 8)),
{
    ((b[at] as u64) << 56u64) | ((b[at + 1] as u64) << 48u64) | ((b[at + 2] as u64) << 40u64) | ((
    b[at + 3] as u64) << 32u64) | ((b[at + 4] as u64) << 24u64) | ((b[at + 5] as u64) << 16u64)
        | ((b[at + 6] as u64) << 8u64) | (b[at + 7] as u64)
}

/// Appends every byte of `src` to `out`.
pub fn append_bytes(out: &mut Vec<u8>, src: &[u8])
    ensures
        final(out)@ == old(out)@ + src@,
{
    let mut i: usize = 0;
    while i < src.len()
        invariant
            i <= src@.len(),
            out@ == old(out)@ + src@.subrange(0, i as int),
        decreases src@.len() - i,
    {
        out.push(src[i]);
        i = i + 1;
        assert(out@ =~= old(out)@ + src@.subrange(0, i as int));
    }
    assert(src@.subrange(0, i as int) =~= src@);
}

/// A fresh vector holding `src[from..to]`.
pub fn copy_range(src: &[u8], from: usize, to: usize) -> (r: Vec<u8>)
    requires
        from <= to <= src@.len(),
    ensures
        r@ == src@.subrange(from as int, to as int),
{
    let mut out: Vec<u8> = Vec::new();
    let mut i: usize = from;
    while i < to
        invariant
            from <= i <= to <= src@.len(),
            out@ == src@.subrange(from as int, i as int),
        decreases to - i,
    {
        out.push(src[i]);
        i = i + 1;
        assert(out@ =~= src@.subrange(from as int, i as int));
    }
    out
}

/// Whether two byte strings are equal.
pub fn bytes_equal(a: &[u8], b: &[u8]) -> (r: bool)
    ensures
        r == (a@ == b@),
{
    if a.len() != b.len() {
        return false;
    }
    let mut i: usize = 0;
    while i < a.len()
        invariant
            a@.len() == b@.len(),
            i <= a@.len(),
            forall|j: int| 0 <= j < i ==> a@[j] == b@[j],
        decreases a@.len() - i,
    {
        if a[i] != b[i] {
            return false;
        }
        i = i + 1;
    }
    assert(a@ =~= b@);
    true
}

} // verus!
