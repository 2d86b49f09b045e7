//! The Castagnoli cyclic redundancy check, computed by an outside crate.
//! The checksum itself is left uninterpreted: the contracts only say that
//! it is a function of the previous value and the data bytes.

use vstd::prelude::*;

verus! {

/// The CRC-32C of `data` folded onto the previous checksum value `crc`,
/// as the incremental Castagnoli computation yields it.
pub uninterp spec fn crc32c_extend(crc: u32, data: Seq<u8>) -> u32;

/// Relies on crc32c::crc32c_append: computes the checksum of the data
/// continued from a previous checksum value; a function of the two
/// arguments alone.
#[verifier::external_body]
pub fn crc32c_append(crc: u32, data: &[u8]) -> (r: u32)
    ensures
        r == crc32c_extend(crc, data@),
{
    crc32c::crc32c_append(crc, data)
}

/// Relies on crc32c::crc32c, documented as equivalent to
/// `crc32c_append(0, data)`.
#[verifier::external_body]
pub fn crc32c_of(data: &[u8]) -> (r: u32)
    ensures
        r == crc32c_extend(0, data@),
{
    crc32c::crc32c(data)
}

} // verus!
