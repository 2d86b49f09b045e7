//! Little-endian encoding and decoding of fixed-width integers, with
//! round-trip proofs. All multi-byte fields of the target format are
//! little-endian.

use vstd::prelude::*;

verus! {

/// The two little-endian bytes of a 16-bit value.
pub open spec fn u16_le(x: u16) -> Seq<u8> {
    seq![(x & 0xff) as u8, ((x >> 8) & 0xff) as u8]
}

/// The four little-endian bytes of a 32-bit value.
pub open spec fn u32_le(x: u32) -> Seq<u8> {
    seq![
        (x & 0xff) as u8,
        ((x >> 8) & 0xff) as u8,
        ((x >> 16) & 0xff) as u8,
        ((x >> 24) & 0xff) as u8,
    ]
}

/// The eight little-endian bytes of a 64-bit value.
pub open spec fn u64_le(x: u64) -> Seq<u8> {
    seq![
        (x & 0xff) as u8,
        ((x >> 8) & 0xff) as u8,
        ((x >> 16) & 0xff) as u8,
        ((x >> 24) & 0xff) as u8,
        ((x >> 32) & 0xff) as u8,
        ((x >> 40) & 0xff) as u8,
        ((x >> 48) & 0xff) as u8,
        ((x >> 56) & 0xff) as u8,
    ]
}

/// The 32-bit value read from four little-endian bytes.
pub open spec fn le_to_u32(b0: u8, b1: u8, b2: u8, b3: u8) -> u32 {
    (b0 as u32) | ((b1 as u32) << 8) | ((b2 as u32) << 16) | ((b3 as u32) << 24)
}

/// The 64-bit value read from eight little-endian bytes.
pub open spec fn le_to_u64(b0: u8, b1: u8, b2: u8, b3: u8, b4: u8, b5: u8, b6: u8, b7: u8) -> u64 {
    (b0 as u64) | ((b1 as u64) << 8) | ((b2 as u64) << 16) | ((b3 as u64) << 24)
        | ((b4 as u64) << 32) | ((b5 as u64) << 40) | ((b6 as u64) << 48) | ((b7 as u64) << 56)
}

/// Reading back the four bytes of a 32-bit value gives the value.
pub proof fn lemma_u32_le_roundtrip(x: u32)
    ensures
        le_to_u32(u32_le(x)[0], u32_le(x)[1], u32_le(x)[2], u32_le(x)[3]) == x,
{
    assert(((x & 0xff) as u8 as u32) | ((((x >> 8) & 0xff) as u8 as u32) << 8)
        | ((((x >> 16) & 0xff) as u8 as u32) << 16) | ((((x >> 24) & 0xff) as u8 as u32) << 24)
        == x) by (bit_vector);
}

/// Reading back the eight bytes of a 64-bit value gives the value.
pub proof fn lemma_u64_le_roundtrip(x: u64)
    ensures
        le_to_u64(
            u64_le(x)[0], u64_le(x)[1], u64_le(x)[2], u64_le(x)[3],
            u64_le(x)[4], u64_le(x)[5], u64_le(x)[6], u64_le(x)[7],
        ) == x,
{
    assert(((x & 0xff) as u8 as u64) | ((((x >> 8) & 0xff) as u8 as u64) << 8)
        | ((((x >> 16) & 0xff) as u8 as u64) << 16) | ((((x >> 24) & 0xff) as u8 as u64) << 24)
        | ((((x >> 32) & 0xff) as u8 as u64) << 32) | ((((x >> 40) & 0xff) as u8 as u64) << 40)
        | ((((x >> 48) & 0xff) as u8 as u64) << 48) | ((((x >> 56) & 0xff) as u8 as u64) << 56)
        == x) by (bit_vector);
}

/// The 32-bit little-endian value at offset `i` of `b`.
pub open spec fn le32_at(b: Seq<u8>, i: int) -> u32 {
    le_to_u32(b[i], b[i + 1], b[i + 2], b[i + 3])
}

/// The 64-bit little-endian value at offset `i` of `b`.
pub open spec fn le64_at(b: Seq<u8>, i: int) -> u64 {
    le_to_u64(b[i], b[i + 1], b[i + 2], b[i + 3], b[i + 4], b[i + 5], b[i + 6], b[i + 7])
}

/// Appends the two little-endian bytes of `x` to `out`.
pub fn push_u16_le(out: &mut Vec<u8>, x: u16)
    ensures
        final(out)@ == old(out)@ + u16_le(x),
{
    out.push((x & 0xff) as u8);
    out.push(((x >> 8) & 0xff) as u8);
    assert(final(out)@ =~= old(out)@ + u16_le(x));
}

/// Appends the four little-endian bytes of `x` to `out`.
pub fn push_u32_le(out: &mut Vec<u8>, x: u32)
    ensures
        final(out)@ == old(out)@ + u32_le(x),
{
    out.push((x & 0xff) as u8);
    out.push(((x >> 8) & 0xff) as u8);
    out.push(((x >> 16) & 0xff) as u8);
    out.push(((x >> 24) & 0xff) as u8);
    assert(final(out)@ =~= old(out)@ + u32_le(x));
}

/// Appends the eight little-endian bytes of `x` to `out`.
pub fn push_u64_le(out: &mut Vec<u8>, x: u64)
    ensures
        final(out)@ == old(out)@ + u64_le(x),
{
    out.push((x & 0xff) as u8);
    out.push(((x >> 8) & 0xff) as u8);
    out.push(((x >> 16) & 0xff) as u8);
    out.push(((x >> 24) & 0xff) as u8);
    out.push(((x >> 32) & 0xff) as u8);
    out.push(((x >> 40) & 0xff) as u8);
    out.push(((x >> 48) & 0xff) as u8);
    out.push(((x >> 56) & 0xff) as u8);
    assert(final(out)@ =~= old(out)@ + u64_le(x));
}

/// Reads the 32-bit little-endian value at `at` in `b`.
pub fn read_u32_le(b: &[u8], at: usize) -> (x: u32)
    requires
        at + 4 <= b@.len(),
    ensures
        x == le_to_u32(b@[at as int], b@[at as int + 1], b@[at as int + 2], b@[at as int + 3]),
{
    (b[at] as u32) | ((b[at + 1] as u32) << 8) | ((b[at + 2] as u32) << 16)
        | ((b[at + 3] as u32) << 24)
}

/// Reads the 64-bit little-endian value at `at` in `b`.
pub fn read_u64_le(b: &[u8], at: usize) -> (x: u64)
    requires
        at + 8 <= b@.len(),
    ensures
        x == le_to_u64(
            b@[at as int], b@[at as int + 1], b@[at as int + 2], b@[at as int + 3],
            b@[at as int + 4], b@[at as int + 5], b@[at as int + 6], b@[at as int + 7],
        ),
{
    (b[at] as u64) | ((b[at + 1] as u64) << 8) | ((b[at + 2] as u64) << 16)
        | ((b[at + 3] as u64) << 24) | ((b[at + 4] as u64) << 32) | ((b[at + 5] as u64) << 40)
        | ((b[at + 6] as u64) << 48) | ((b[at + 7] as u64) << 56)
}

/// Encoding the value read from eight bytes gives back those bytes.
pub proof fn lemma_le_to_u64_roundtrip(b0: u8, b1: u8, b2: u8, b3: u8, b4: u8, b5: u8, b6: u8, b7: u8)
    ensures
        u64_le(le_to_u64(b0, b1, b2, b3, b4, b5, b6, b7)) =~= seq![b0, b1, b2, b3, b4, b5, b6, b7],
{
    let x = le_to_u64(b0, b1, b2, b3, b4, b5, b6, b7);
    assert({
        let y = (b0 as u64) | ((b1 as u64) << 8) | ((b2 as u64) << 16) | ((b3 as u64) << 24)
            | ((b4 as u64) << 32) | ((b5 as u64) << 40) | ((b6 as u64) << 48) | ((b7 as u64) << 56);
        (y & 0xff) as u8 == b0 && ((y >> 8) & 0xff) as u8 == b1 && ((y >> 16) & 0xff) as u8 == b2
            && ((y >> 24) & 0xff) as u8 == b3 && ((y >> 32) & 0xff) as u8 == b4
            && ((y >> 40) & 0xff) as u8 == b5 && ((y >> 48) & 0xff) as u8 == b6
            && ((y >> 56) & 0xff) as u8 == b7
    }) by (bit_vector);
}

/// Encoding the value read from four bytes gives back those bytes.
pub proof fn lemma_le_to_u32_roundtrip(b0: u8, b1: u8, b2: u8, b3: u8)
    ensures
        u32_le(le_to_u32(b0, b1, b2, b3)) =~= seq![b0, b1, b2, b3],
{
    assert({
        let y = (b0 as u32) | ((b1 as u32) << 8) | ((b2 as u32) << 16) | ((b3 as u32) << 24);
        (y & 0xff) as u8 == b0 && ((y >> 8) & 0xff) as u8 == b1 && ((y >> 16) & 0xff) as u8 == b2
            && ((y >> 24) & 0xff) as u8 == b3
    }) by (bit_vector);
}

} // verus!
