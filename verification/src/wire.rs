//! Big-endian integer encodings shared by the RTP and RTCP formats.

use vstd::prelude::*;

verus! {

/// The two big-endian bytes of `x`.
pub open spec fn be16(x: u16) -> Seq<u8> {
    seq![(x / 0x100) as u8, (x % 0x100) as u8]
}

/// The four big-endian bytes of `x`.
pub open spec fn be32(x: u32) -> Seq<u8> {
    seq![
        (x / 0x100_0000) as u8,
        (x / 0x1_0000 % 0x100) as u8,
        (x / 0x100 % 0x100) as u8,
        (x % 0x100) as u8,
    ]
}

/// The eight big-endian bytes of `x`.
pub open spec fn be64(x: u64) -> Seq<u8> {
    be32((x / 0x1_0000_0000) as u32) + be32((x % 0x1_0000_0000) as u32)
}

/// The value of two big-endian bytes.
pub open spec fn from_be16(hi: u8, lo: u8) -> int {
    hi * 0x100 + lo
}

/// The value of four big-endian bytes.
pub open spec fn from_be32(b0: u8, b1: u8, b2: u8, b3: u8) -> int {
    ((b0 * 0x100 + b1) * 0x100 + b2) * 0x100 + b3
}

pub proof fn lemma_be16_roundtrip(x: u16)
    ensures
        from_be16(be16(x)[0], be16(x)[1]) == x,
{
}

pub proof fn lemma_be32_roundtrip(x: u32)
    ensures
        from_be32(be32(x)[0], be32(x)[1], be32(x)[2], be32(x)[3]) == x,
{
}

/// Appends the big-endian bytes of `x`.
pub fn push_be16(buffer: &mut Vec<u8>, x: u16)
    ensures
        final(buffer)@ == old(buffer)@ + be16(x),
{
    let hi = (x >> 8) as u8;
    let lo = (x & 0xff) as u8;
    assert(hi == (x / 0x100) as u8 && lo == (x % 0x100) as u8) by (bit_vector)
        requires
            hi == (x >> 8) as u8,
            lo == (x & 0xff) as u8,
    ;
    buffer.push(hi);
    buffer.push(lo);
    assert(final(buffer)@ =~= old(buffer)@ + be16(x));
}

/// Appends the big-endian bytes of `x`.
pub fn push_be32(buffer: &mut Vec<u8>, x: u32)
    ensures
        final(buffer)@ == old(buffer)@ + be32(x),
{
    let b0 = (x >> 24) as u8;
    let b1 = ((x >> 16) & 0xff) as u8;
    let b2 = ((x >> 8) & 0xff) as u8;
    let b3 = (x & 0xff) as u8;
    assert(b0 == (x / 0x100_0000) as u8 && b1 == (x / 0x1_0000 % 0x100) as u8 && b2 == (x / 0x100
        % 0x100) as u8 && b3 == (x % 0x100) as u8) by (bit_vector)
        requires
            b0 == (x >> 24) as u8,
            b1 == ((x >> 16) & 0xff) as u8,
            b2 == ((x >> 8) & 0xff) as u8,
            b3 == (x & 0xff) as u8,
    ;
    buffer.push(b0);
    buffer.push(b1);
    buffer.push(b2);
    buffer.push(b3);
    assert(final(buffer)@ =~= old(buffer)@ + be32(x));
}

/// Reads two big-endian bytes.
pub fn read_be16(hi: u8, lo: u8) -> (r: u16)
    ensures
        r == from_be16(hi, lo),
{
    let r = ((hi as u16) << 8) | (lo as u16);
    assert(((hi as u16) << 8) | (lo as u16) == hi * 0x100 + lo) by (bit_vector);
    r
}

/// Reads four big-endian bytes.
pub fn read_be32(b0: u8, b1: u8, b2: u8, b3: u8) -> (r: u32)
    ensures
        r == from_be32(b0, b1, b2, b3),
{
    let r = ((b0 as u32) << 24) | ((b1 as u32) << 16) | ((b2 as u32) << 8) | (b3 as u32);
    assert(((b0 as u32) << 24) | ((b1 as u32) << 16) | ((b2 as u32) << 8) | (b3 as u32) == ((b0
        * 0x100 + b1) * 0x100 + b2) * 0x100 + b3) by (bit_vector);
    r
}

} // verus!
