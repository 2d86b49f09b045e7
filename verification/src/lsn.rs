//! Log sequence numbers: 64-bit positions in the write-ahead log.

use vstd::prelude::*;

verus! {

/// A position in the write-ahead log. The archive is generated as of one
/// caller-supplied position; ordering follows the wrapped integer.
#[derive(Debug, Clone, Copy, PartialEq, Eq, Structural)]
pub struct Lsn(pub u64);

impl Lsn {
    /// Number of the segment that holds this position, for the given
    /// segment size.
    pub fn segment_number(self, seg_size: usize) -> (segno: u64)
        requires
            seg_size > 0,
        ensures
            segno == self.0 as int / seg_size as int,
    {
        self.0 / (seg_size as u64)
    }
}

} // verus!
