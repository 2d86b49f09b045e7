//! The verified residue of the storage-synchronization layer: the timeline
//! identity pair and the path arithmetic it relies on. The synchronization
//! machinery itself is I/O and lives with the caller.

use vstd::prelude::*;
use crate::errors::BasebackupError;
use crate::numfmt::{hex_str_pad, push_hex_pad};

verus! {

/// A tenant's 128-bit identifier, as two 64-bit halves.
#[derive(Debug, Clone, Copy, PartialEq, Eq, PartialOrd, Ord, Hash, Structural)]
pub struct ZTenantId {
    /// The high half.
    pub hi: u64,
    /// The low half.
    pub lo: u64,
}

/// A timeline's 128-bit identifier, as two 64-bit halves.
#[derive(Debug, Clone, Copy, PartialEq, Eq, PartialOrd, Ord, Hash, Structural)]
pub struct ZTimelineId {
    /// The high half.
    pub hi: u64,
    /// The low half.
    pub lo: u64,
}

/// The 32-hex-digit form of a 128-bit identifier.
pub open spec fn id_hex_chars(hi: u64, lo: u64) -> Seq<char> {
    hex_str_pad(hi as int, 16) + hex_str_pad(lo as int, 16)
}

impl ZTenantId {
    /// This identifier as 32 uppercase hex digits.
    pub fn hex_string(&self) -> (s: String)
        ensures
            s@ == id_hex_chars(self.hi, self.lo),
    {
        let mut s = String::new();
        push_hex_pad(&mut s, self.hi, 16);
        push_hex_pad(&mut s, self.lo, 16);
        proof {
            assert(s@ =~= id_hex_chars(self.hi, self.lo));
        }
        s
    }
}

impl ZTimelineId {
    /// This identifier as 32 uppercase hex digits.
    pub fn hex_string(&self) -> (s: String)
        ensures
            s@ == id_hex_chars(self.hi, self.lo),
    {
        let mut s = String::new();
        push_hex_pad(&mut s, self.hi, 16);
        push_hex_pad(&mut s, self.lo, 16);
        proof {
            assert(s@ =~= id_hex_chars(self.hi, self.lo));
        }
        s
    }
}

/// A timeline with the tenant it belongs to; the synchronization processes
/// group work by both.
#[derive(Debug, Clone, Copy, PartialEq, Eq, PartialOrd, Ord, Hash, Structural)]
pub struct TimelineSyncId(pub ZTenantId, pub ZTimelineId);

/// Strips `prefix` and the separator after it from the front of `path`.
/// Fails when the two are equal, and when `path` does not continue
/// `prefix` with a separator.
pub fn strip_path_prefix<'a>(prefix: &str, path: &'a str) -> (r: Result<&'a str, BasebackupError>)
    ensures
        path@ == prefix@ ==> r is Err,
        r matches Ok(rest) ==> (prefix@ + seq!['/']).is_prefix_of(path@) && rest@ == path@.skip(
            prefix@.len() as int + 1,
        ),
        r is Err ==> !(prefix@ + seq!['/']).is_prefix_of(path@),
{
    let plen = prefix.unicode_len();
    let len = path.unicode_len();
    if plen >= len {
        proof {
            if (prefix@ + seq!['/']).is_prefix_of(path@) {
                assert(prefix@.len() + 1 <= path@.len());
            }
        }
        return Err(BasebackupError::InvalidPath);
    }
    let mut i: usize = 0;
    while i < plen
        invariant
            0 <= i <= plen < len,
            plen == prefix@.len(),
            len == path@.len(),
            forall|k: int| 0 <= k < i ==> prefix@[k] == path@[k],
        decreases plen - i,
    {
        if prefix.get_char(i) != path.get_char(i) {
            proof {
                if (prefix@ + seq!['/']).is_prefix_of(path@) {
                    assert(path@.subrange(0, prefix@.len() as int + 1)[i as int] == path@[i as int]);
                }
            }
            return Err(BasebackupError::InvalidPath);
        }
        i += 1;
    }
    if path.get_char(plen) != '/' {
        proof {
            if (prefix@ + seq!['/']).is_prefix_of(path@) {
                assert(path@.subrange(0, prefix@.len() as int + 1)[plen as int] == path@[plen as int]);
            }
        }
        return Err(BasebackupError::InvalidPath);
    }
    let rest = path.substring_char(plen + 1, len);
    proof {
        assert((prefix@ + seq!['/']).is_prefix_of(path@)) by {
            assert(prefix@ + seq!['/'] =~= path@.subrange(0, prefix@.len() as int + 1));
        }
        assert(rest@ =~= path@.skip(prefix@.len() as int + 1));
    }
    Ok(rest)
}

} // verus!
