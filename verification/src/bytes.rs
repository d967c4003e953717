//! Little-endian byte-level encoding of the fixed-width integers used by
//! the wire formats.

use vstd::prelude::*;

verus! {

/// The four little-endian bytes of a 32-bit value.
pub open spec fn u32_le_bytes(v: u32) -> Seq<u8> {
    seq![
        (v & 0xFF) as u8,
        ((v >> 8) & 0xFF) as u8,
        ((v >> 16) & 0xFF) as u8,
        ((v >> 24) & 0xFF) as u8,
    ]
}

/// The two little-endian bytes of a 16-bit value.
pub open spec fn u16_le_bytes(v: u16) -> Seq<u8> {
    seq![(v & 0xFF) as u8, ((v >> 8) & 0xFF) as u8]
}

/// The 32-bit value encoded by four little-endian bytes.
pub open spec fn le_bytes_to_u32(b0: u8, b1: u8, b2: u8, b3: u8) -> u32 {
    (b0 as u32) | ((b1 as u32) << 8) | ((b2 as u32) << 16) | ((b3 as u32) << 24)
}

/// The 16-bit value encoded by two little-endian bytes.
pub open spec fn le_bytes_to_u16(b0: u8, b1: u8) -> u16 {
    (b0 as u16) | ((b1 as u16) << 8)
}

/// The 32-bit value stored little-endian at offset `off` of `s`.
pub open spec fn read_u32_le(s: Seq<u8>, off: int) -> u32 {
    le_bytes_to_u32(s[off], s[off + 1], s[off + 2], s[off + 3])
}

/// The 16-bit value stored little-endian at offset `off` of `s`.
pub open spec fn read_u16_le(s: Seq<u8>, off: int) -> u16 {
    le_bytes_to_u16(s[off], s[off + 1])
}

/// `s` with the 32-bit value `v` stored little-endian at offset `off`.
pub open spec fn write_u32_le(s: Seq<u8>, off: int, v: u32) -> Seq<u8> {
    s.update(off, u32_le_bytes(v)[0]).update(off + 1, u32_le_bytes(v)[1]).update(
        off + 2,
        u32_le_bytes(v)[2],
    ).update(off + 3, u32_le_bytes(v)[3])
}

/// `s` with the 16-bit value `v` stored little-endian at offset `off`.
pub open spec fn write_u16_le(s: Seq<u8>, off: int, v: u16) -> Seq<u8> {
    s.update(off, u16_le_bytes(v)[0]).update(off + 1, u16_le_bytes(v)[1])
}

/// Splitting a 32-bit value into little-endian bytes and reassembling them
/// recovers the value exactly.
pub proof fn lemma_u32_le_round_trip(v: u32)
    ensures
        le_bytes_to_u32(
            u32_le_bytes(v)[0],
            u32_le_bytes(v)[1],
            u32_le_bytes(v)[2],
            u32_le_bytes(v)[3],
        ) == v,
{
    assert((((v & 0xFF) as u8) as u32) | ((((v >> 8) & 0xFF) as u8) as u32) << 8 | ((((v >> 16)
        & 0xFF) as u8) as u32) << 16 | ((((v >> 24) & 0xFF) as u8) as u32) << 24 == v)
        by (bit_vector);
}

/// Splitting a 16-bit value into little-endian bytes and reassembling them
/// recovers the value exactly.
pub proof fn lemma_u16_le_round_trip(v: u16)
    ensures
        le_bytes_to_u16(u16_le_bytes(v)[0], u16_le_bytes(v)[1]) == v,
{
    assert((((v & 0xFF) as u8) as u16) | ((((v >> 8) & 0xFF) as u8) as u16) << 8 == v)
        by (bit_vector);
}

/// Append the four little-endian bytes of `v` to `dest`.
pub fn push_u32_le(dest: &mut Vec<u8>, v: u32)
    ensures
        final(dest)@ == old(dest)@ + u32_le_bytes(v),
{
    dest.push((v & 0xFF) as u8);
    dest.push(((v >> 8) & 0xFF) as u8);
    dest.push(((v >> 16) & 0xFF) as u8);
    dest.push(((v >> 24) & 0xFF) as u8);
    proof {
        assert(dest@ =~= old(dest)@ + u32_le_bytes(v));
    }
}

/// Store the 32-bit value `v` little-endian at offset `off` of `dest`.
pub fn write_u32_le_at(dest: &mut Vec<u8>, off: usize, v: u32)
    requires
        off + 4 <= old(dest).len(),
    ensures
        final(dest)@ == write_u32_le(old(dest)@, off as int, v),
{
    dest[off] = (v & 0xFF) as u8;
    dest[off + 1] = ((v >> 8) & 0xFF) as u8;
    dest[off + 2] = ((v >> 16) & 0xFF) as u8;
    dest[off + 3] = ((v >> 24) & 0xFF) as u8;
}

/// Store the 16-bit value `v` little-endian at offset `off` of `dest`.
pub fn write_u16_le_at(dest: &mut Vec<u8>, off: usize, v: u16)
    requires
        off + 2 <= old(dest).len(),
    ensures
        final(dest)@ == write_u16_le(old(dest)@, off as int, v),
{
    dest[off] = (v & 0xFF) as u8;
    dest[off + 1] = ((v >> 8) & 0xFF) as u8;
}

/// Overwrite the front of `dest` with the whole of `src`, leaving the
/// bytes past `src`'s length untouched.
pub fn write_prefix(dest: &mut Vec<u8>, src: &Vec<u8>)
    requires
        src.len() <= old(dest).len(),
    ensures
        final(dest)@.len() == old(dest)@.len(),
        final(dest)@.subrange(0, src@.len() as int) == src@,
        final(dest)@.skip(src@.len() as int) == old(dest)@.skip(src@.len() as int),
{
    let n = src.len();
    let mut i: usize = 0;
    while i < n
        invariant
            n == src@.len(),
            n <= dest@.len(),
            i <= n,
            dest@.len() == old(dest)@.len(),
            forall|p: int| 0 <= p < i ==> dest@[p] == src@[p],
            forall|p: int| i <= p < dest@.len() ==> dest@[p] == old(dest)@[p],
        decreases n - i,
    {
        dest[i] = src[i];
        i = i + 1;
    }
    proof {
        assert(dest@.subrange(0, src@.len() as int) =~= src@);
        assert(dest@.skip(src@.len() as int) =~= old(dest)@.skip(src@.len() as int));
    }
}

/// Read the 32-bit value stored little-endian at offset `off` of `src`.
pub fn read_u32_le_at(src: &Vec<u8>, off: usize) -> (r: u32)
    requires
        off + 4 <= src.len(),
    ensures
        r == read_u32_le(src@, off as int),
{
    (src[off] as u32) | ((src[off + 1] as u32) << 8) | ((src[off + 2] as u32) << 16) | ((src[off
        + 3] as u32) << 24)
}

/// Read the 16-bit value stored little-endian at offset `off` of `src`.
pub fn read_u16_le_at(src: &Vec<u8>, off: usize) -> (r: u16)
    requires
        off + 2 <= src.len(),
    ensures
        r == read_u16_le(src@, off as int),
{
    (src[off] as u16) | ((src[off + 1] as u16) << 8)
}

} // verus!
