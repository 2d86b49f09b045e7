//! Classification of paths relative to the snapshot root: which name an
//! ordinary relation data file, which belong to an unsupported tablespace,
//! and which must be copied into the archive verbatim.
//!
//! All decisions are over the path's UTF-8 bytes; every name the format
//! cares about is plain ASCII.

use vstd::prelude::*;
use vstd::string::StringSliceAdditionalSpecFns;

verus! {

/// Fork number of a relation's main data fork.
pub const MAIN_FORKNUM: u8 = 0;

/// Fork number of the free-space-map fork (`_fsm` suffix).
pub const FSM_FORKNUM: u8 = 1;

/// Fork number of the visibility-map fork (`_vm` suffix).
pub const VISIBILITYMAP_FORKNUM: u8 = 2;

/// Fork number of the init fork (`_init` suffix).
pub const INIT_FORKNUM: u8 = 3;

/// Why a path failed to parse as a relation data file.
#[derive(Debug, Clone, Copy, PartialEq, Eq, Structural)]
pub enum FilePathError {
    /// The path does not have the shape of a relation data file.
    InvalidFileName,
    /// The file name carries a fork suffix that names no known fork.
    InvalidForkName,
}

/// Is `b` an ASCII decimal digit?
pub open spec fn is_digit_byte(b: u8) -> bool {
    48 <= b && b <= 57
}

/// Is `b` an ASCII lowercase letter?
pub open spec fn is_lower_byte(b: u8) -> bool {
    97 <= b && b <= 122
}

/// Length of the longest prefix of `s` made of decimal digits.
pub open spec fn digits_len(s: Seq<u8>) -> nat
    decreases s.len(),
{
    if s.len() == 0 || !is_digit_byte(s[0]) {
        0
    } else {
        1 + digits_len(s.skip(1))
    }
}

/// Length of the longest prefix of `s` made of lowercase letters.
pub open spec fn lower_len(s: Seq<u8>) -> nat
    decreases s.len(),
{
    if s.len() == 0 || !is_lower_byte(s[0]) {
        0
    } else {
        1 + lower_len(s.skip(1))
    }
}

/// The value of `s` read as a decimal numeral.
pub open spec fn dec_val(s: Seq<u8>) -> int
    decreases s.len(),
{
    if s.len() == 0 {
        0
    } else {
        dec_val(s.drop_last()) * 10 + (s.last() - 48)
    }
}

/// Does `s` consist only of decimal digits?
pub open spec fn all_digits(s: Seq<u8>) -> bool {
    forall|k: int| 0 <= k < s.len() ==> is_digit_byte(#[trigger] s[k])
}

/// Is `s` a non-empty numeral whose value fits an unsigned 32-bit integer?
pub open spec fn is_u32_numeral(s: Seq<u8>) -> bool {
    s.len() > 0 && all_digits(s) && dec_val(s) <= u32::MAX
}

/// `digits_len` is the unique scan boundary: everything before it is a
/// digit and it stands at the end or on a non-digit.
pub proof fn lemma_digits_len_char(s: Seq<u8>, n: nat)
    requires
        n <= s.len(),
        forall|k: int| 0 <= k < n ==> is_digit_byte(#[trigger] s[k]),
        n == s.len() || !is_digit_byte(s[n as int]),
    ensures
        digits_len(s) == n,
    decreases s.len(),
{
    if s.len() == 0 {
    } else if !is_digit_byte(s[0]) {
        assert(n == 0);
    } else {
        assert(is_digit_byte(s[0]));
        assert(n != 0);
        let t = s.skip(1);
        assert(forall|k: int| 0 <= k < n - 1 ==> is_digit_byte(#[trigger] t[k]));
        lemma_digits_len_char(t, (n - 1) as nat);
    }
}

/// The same boundary characterization for `lower_len`.
pub proof fn lemma_lower_len_char(s: Seq<u8>, n: nat)
    requires
        n <= s.len(),
        forall|k: int| 0 <= k < n ==> is_lower_byte(#[trigger] s[k]),
        n == s.len() || !is_lower_byte(s[n as int]),
    ensures
        lower_len(s) == n,
    decreases s.len(),
{
    if s.len() == 0 {
    } else if !is_lower_byte(s[0]) {
        assert(n == 0);
    } else {
        assert(n != 0);
        let t = s.skip(1);
        assert(forall|k: int| 0 <= k < n - 1 ==> is_lower_byte(#[trigger] t[k]));
        lemma_lower_len_char(t, (n - 1) as nat);
    }
}

/// What the scan boundary gives back: everything before `digits_len` is a
/// digit.
pub proof fn lemma_digits_len_props(s: Seq<u8>)
    ensures
        digits_len(s) <= s.len(),
        forall|k: int| 0 <= k < digits_len(s) ==> is_digit_byte(#[trigger] s[k]),
    decreases s.len(),
{
    if s.len() > 0 && is_digit_byte(s[0]) {
        lemma_digits_len_props(s.skip(1));
        assert(forall|k: int| 1 <= k < digits_len(s) ==> is_digit_byte(#[trigger] s.skip(1)[k - 1]));
        assert(forall|k: int| 1 <= k < digits_len(s) ==> s[k] == s.skip(1)[k - 1]);
    }
}

/// What the scan boundary gives back for lowercase prefixes.
pub proof fn lemma_lower_len_props(s: Seq<u8>)
    ensures
        lower_len(s) <= s.len(),
        forall|k: int| 0 <= k < lower_len(s) ==> is_lower_byte(#[trigger] s[k]),
    decreases s.len(),
{
    if s.len() > 0 && is_lower_byte(s[0]) {
        lemma_lower_len_props(s.skip(1));
        assert(forall|k: int| 1 <= k < lower_len(s) ==> is_lower_byte(#[trigger] s.skip(1)[k - 1]));
        assert(forall|k: int| 1 <= k < lower_len(s) ==> s[k] == s.skip(1)[k - 1]);
    }
}

/// A numeral of digits only has a non-negative value.
pub proof fn lemma_dec_val_nonneg(s: Seq<u8>)
    requires
        all_digits(s),
    ensures
        dec_val(s) >= 0,
    decreases s.len(),
{
    if s.len() > 0 {
        assert(all_digits(s.drop_last()));
        lemma_dec_val_nonneg(s.drop_last());
    }
}

/// Dropping trailing digits never increases a numeral's value.
pub proof fn lemma_dec_val_prefix_le(s: Seq<u8>, i: int)
    requires
        all_digits(s),
        0 <= i <= s.len(),
    ensures
        dec_val(s.take(i)) <= dec_val(s),
    decreases s.len() - i,
{
    if i < s.len() {
        let t = s.take(i + 1);
        assert(all_digits(t));
        assert(t.drop_last() =~= s.take(i));
        lemma_dec_val_nonneg(s.take(i));
        assert(dec_val(t) == dec_val(s.take(i)) * 10 + (t.last() - 48));
        assert(t.last() == s[i]);
        assert(dec_val(s.take(i)) <= dec_val(t));
        lemma_dec_val_prefix_le(s, i + 1);
        assert(s.take(i + 1) =~= t);
    } else {
        assert(s.take(i) =~= s);
    }
}

/// Counts the decimal digits of `b` from position `from` on.
fn scan_digits(b: &[u8], from: usize) -> (n: usize)
    requires
        from <= b@.len(),
    ensures
        from + n <= b@.len(),
        n == digits_len(b@.skip(from as int)),
{
    let len = b.len();
    let mut i = from;
    while i < len && 48 <= b[i] && b[i] <= 57
        invariant
            from <= i <= len,
            len == b@.len(),
            forall|k: int| from <= k < i ==> is_digit_byte(#[trigger] b@[k]),
        decreases len - i,
    {
        i += 1;
    }
    proof {
        let s = b@.skip(from as int);
        let n = (i - from) as nat;
        assert(forall|k: int| 0 <= k < n ==> is_digit_byte(#[trigger] s[k]));
        assert(n == s.len() || !is_digit_byte(s[n as int]));
        lemma_digits_len_char(s, n);
    }
    i - from
}

/// Counts the lowercase letters of `b` from position `from` on.
fn scan_lower(b: &[u8], from: usize) -> (n: usize)
    requires
        from <= b@.len(),
    ensures
        from + n <= b@.len(),
        n == lower_len(b@.skip(from as int)),
{
    let len = b.len();
    let mut i = from;
    while i < len && 97 <= b[i] && b[i] <= 122
        invariant
            from <= i <= len,
            len == b@.len(),
            forall|k: int| from <= k < i ==> is_lower_byte(#[trigger] b@[k]),
        decreases len - i,
    {
        i += 1;
    }
    proof {
        let s = b@.skip(from as int);
        let n = (i - from) as nat;
        assert(forall|k: int| 0 <= k < n ==> is_lower_byte(#[trigger] s[k]));
        assert(n == s.len() || !is_lower_byte(s[n as int]));
        lemma_lower_len_char(s, n);
    }
    i - from
}

/// Reads the numeral `b[from..to]` as an unsigned 32-bit value; `None`
/// when the value is too large.
fn parse_u32_digits(b: &[u8], from: usize, to: usize) -> (r: Option<u32>)
    requires
        from <= to <= b@.len(),
        forall|k: int| from <= k < to ==> is_digit_byte(#[trigger] b@[k]),
    ensures
        match r {
            Some(v) => dec_val(b@.subrange(from as int, to as int)) == v,
            None => dec_val(b@.subrange(from as int, to as int)) > u32::MAX,
        },
{
    let s = Ghost(b@.subrange(from as int, to as int));
    let mut acc: u64 = 0;
    let mut i = from;
    while i < to
        invariant
            from <= i <= to <= b@.len(),
            forall|k: int| from <= k < to ==> is_digit_byte(#[trigger] b@[k]),
            s@ == b@.subrange(from as int, to as int),
            acc == dec_val(s@.take(i - from)),
            acc <= u32::MAX,
        decreases to - i,
    {
        let d = b[i] - 48;
        acc = acc * 10 + (d as u64);
        proof {
            assert(s@.take(i + 1 - from).drop_last() =~= s@.take(i - from));
            assert(s@.take(i + 1 - from).last() == b@[i as int]);
        }
        i += 1;
        if acc > u32::MAX as u64 {
            proof {
                assert(all_digits(s@));
                lemma_dec_val_prefix_le(s@, i - from);
                assert(s@.take(i - from).len() == i - from);
            }
            return None;
        }
    }
    proof {
        assert(s@.take(to - from) =~= s@);
    }
    Some(acc as u32)
}

/// The bytes of the fork suffix `fsm`.
pub open spec fn fsm_name() -> Seq<u8> {
    seq![102u8, 115u8, 109u8]
}

/// The bytes of the fork suffix `vm`.
pub open spec fn vm_name() -> Seq<u8> {
    seq![118u8, 109u8]
}

/// The bytes of the fork suffix `init`.
pub open spec fn init_name() -> Seq<u8> {
    seq![105u8, 110u8, 105u8, 116u8]
}

/// The fork number named by a fork suffix, if any.
pub open spec fn fork_number_of(s: Seq<u8>) -> Option<u8> {
    if s == fsm_name() {
        Some(FSM_FORKNUM)
    } else if s == vm_name() {
        Some(VISIBILITYMAP_FORKNUM)
    } else if s == init_name() {
        Some(INIT_FORKNUM)
    } else {
        None
    }
}

/// Splits a candidate relation file name into its numeral, fork-suffix and
/// segment-numeral parts: `<digits>[_<letters>][.<digits>]`, each part
/// covering the whole name. `None` when the name has no such shape (the
/// fork suffix may still be unknown, and the numerals too large).
pub open spec fn rel_name_split(f: Seq<u8>) -> Option<(Seq<u8>, Seq<u8>, Seq<u8>)> {
    let d = digits_len(f) as int;
    if d == 0 {
        None
    } else {
        let rest = f.skip(d);
        if rest.len() == 0 {
            Some((f, Seq::empty(), Seq::empty()))
        } else if rest[0] == 95 {
            let a = lower_len(rest.skip(1)) as int;
            if a == 0 {
                None
            } else {
                let fork = rest.skip(1).take(a);
                let rest2 = rest.skip(1 + a);
                if rest2.len() == 0 {
                    Some((f.take(d), fork, Seq::empty()))
                } else if rest2[0] == 46 && digits_len(rest2.skip(1)) == rest2.len() - 1
                    && rest2.len() > 1 {
                    Some((f.take(d), fork, rest2.skip(1)))
                } else {
                    None
                }
            }
        } else if rest[0] == 46 && digits_len(rest.skip(1)) == rest.len() - 1 && rest.len() > 1 {
            Some((f.take(d), Seq::empty(), rest.skip(1)))
        } else {
            None
        }
    }
}

/// The parse of a relation file name: node id, fork number and segment
/// number, or `None` when the shape, a numeral's range or the fork suffix
/// is wrong.
pub open spec fn rel_filename_parts(f: Seq<u8>) -> Option<(u32, u8, u32)> {
    match rel_name_split(f) {
        None => None,
        Some((node, fork, seg)) => {
            if dec_val(node) > u32::MAX {
                None
            } else {
                let forknum = if fork.len() == 0 { Some(MAIN_FORKNUM) } else { fork_number_of(fork) };
                match forknum {
                    None => None,
                    Some(fn_) => {
                        if seg.len() == 0 {
                            Some((dec_val(node) as u32, fn_, 0))
                        } else if dec_val(seg) > u32::MAX {
                            None
                        } else {
                            Some((dec_val(node) as u32, fn_, dec_val(seg) as u32))
                        }
                    },
                }
            }
        },
    }
}

/// Does the name have a well-shaped fork suffix that names no known fork,
/// while its node numeral fits? That case alone is reported as a bad fork
/// name rather than a bad file name.
pub open spec fn rel_filename_bad_fork(f: Seq<u8>) -> bool {
    match rel_name_split(f) {
        None => false,
        Some((node, fork, seg)) => dec_val(node) <= u32::MAX && fork.len() > 0
            && fork_number_of(fork) is None,
    }
}

/// Checks whether `b[from..from+n]` is a known fork suffix.
fn fork_number_at(b: &[u8], from: usize, n: usize) -> (r: Option<u8>)
    requires
        from + n <= b@.len(),
    ensures
        r == fork_number_of(b@.subrange(from as int, (from + n) as int)),
{
    let ghost s = b@.subrange(from as int, (from + n) as int);
    if n == 3 && b[from] == 102 && b[from + 1] == 115 && b[from + 2] == 109 {
        proof { assert(s =~= fsm_name()); }
        Some(FSM_FORKNUM)
    } else if n == 2 && b[from] == 118 && b[from + 1] == 109 {
        proof { assert(s =~= vm_name()); }
        Some(VISIBILITYMAP_FORKNUM)
    } else {
        if n == 4 && b[from] == 105 && b[from + 1] == 110 && b[from + 2] == 105
            && b[from + 3] == 116 {
            proof { assert(s =~= init_name()); }
            Some(INIT_FORKNUM)
        } else {
            proof {
                assert(s.len() == n);
                assert(s != fsm_name());
                assert(s != vm_name());
                assert(s != init_name());
            }
            None
        }
    }
}

/// Parses `b[from..]` as a relation file name `<node>[_<fork>][.<segno>]`,
/// returning node id, fork number and segment number.
fn parse_relfilename_at(b: &[u8], from: usize) -> (r: Result<(u32, u8, u32), FilePathError>)
    requires
        from <= b@.len(),
    ensures
        match r {
            Ok(parts) => rel_filename_parts(b@.skip(from as int)) == Some(parts),
            Err(e) => rel_filename_parts(b@.skip(from as int)) is None && (e
                == FilePathError::InvalidForkName <==> rel_filename_bad_fork(
                b@.skip(from as int),
            )),
        },
{
    let ghost f = b@.skip(from as int);
    let len = b.len();
    let d = scan_digits(b, from);
    if d == 0 {
        return Err(FilePathError::InvalidFileName);
    }
    proof {
        assert(f.skip(digits_len(f) as int) =~= b@.skip((from + d) as int));
        assert(f.take(digits_len(f) as int) =~= b@.subrange(from as int, (from + d) as int));
        lemma_digits_len_props(f);
        assert(forall|k: int| from <= k < from + d ==> is_digit_byte(#[trigger] b@[k])) by {
            assert(forall|k: int| from <= k < from + d ==> b@[k] == f[k - from]);
        }
    }
    let node_opt = parse_u32_digits(b, from, from + d);
    let mut fork_opt: Option<u8> = Some(MAIN_FORKNUM);
    let mut pos = from + d;
    let ghost rest = f.skip(d as int);
    if pos < len && b[pos] == 95 {
        let a = scan_lower(b, pos + 1);
        proof {
            assert(rest.skip(1) =~= b@.skip((pos + 1) as int));
        }
        if a == 0 {
            return Err(FilePathError::InvalidFileName);
        }
        proof {
            assert(rest.skip(1).take(a as int) =~= b@.subrange(
                (pos + 1) as int,
                (pos + 1 + a) as int,
            ));
        }
        fork_opt = fork_number_at(b, pos + 1, a);
        pos = pos + 1 + a;
        proof {
            assert(rest.skip(1 + a as int) =~= b@.skip(pos as int));
        }
    }
    // Validate the shape of the optional `.<segno>` suffix before anything
    // else is reported: an ill-shaped name is never a bad fork name.
    let mut has_seg = false;
    if pos < len {
        if b[pos] != 46 {
            return Err(FilePathError::InvalidFileName);
        }
        let sd = scan_digits(b, pos + 1);
        proof {
            assert(b@.skip(pos as int).skip(1) =~= b@.skip((pos + 1) as int));
        }
        if pos + 1 + sd != len || sd == 0 {
            return Err(FilePathError::InvalidFileName);
        }
        has_seg = true;
    }
    proof {
        if from + d == pos && pos == len {
            assert(f.take(d as int) =~= f);
        }
    }
    let node = match node_opt {
        Some(v) => v,
        None => {
            return Err(FilePathError::InvalidFileName);
        },
    };
    let fork = match fork_opt {
        Some(k) => k,
        None => {
            return Err(FilePathError::InvalidForkName);
        },
    };
    if !has_seg {
        return Ok((node, fork, 0));
    }
    proof {
        assert(b@.skip(pos as int).skip(1) =~= b@.subrange((pos + 1) as int, len as int));
        let t = b@.skip((pos + 1) as int);
        lemma_digits_len_props(t);
        assert(forall|k: int| pos + 1 <= k < len ==> is_digit_byte(#[trigger] b@[k])) by {
            assert(forall|k: int| pos + 1 <= k < len ==> b@[k] == t[k - pos - 1]);
        }
    }
    let seg = match parse_u32_digits(b, pos + 1, len) {
        Some(v) => v,
        None => {
            return Err(FilePathError::InvalidFileName);
        },
    };
    Ok((node, fork, seg))
}

/// The bytes of the directory prefix `global/` of the shared tablespace.
pub open spec fn global_dir() -> Seq<u8> {
    seq![103u8, 108u8, 111u8, 98u8, 97u8, 108u8, 47u8]
}

/// The bytes of the directory prefix `base/` of the default tablespace.
pub open spec fn base_dir() -> Seq<u8> {
    seq![98u8, 97u8, 115u8, 101u8, 47u8]
}

/// The bytes of the directory prefix `pg_tblspc/` of non-default tablespaces.
pub open spec fn tblspc_dir() -> Seq<u8> {
    seq![112u8, 103u8, 95u8, 116u8, 98u8, 108u8, 115u8, 112u8, 99u8, 47u8]
}

/// The bytes of the directory prefix `pg_xact/` of the commit log.
pub open spec fn xact_dir() -> Seq<u8> {
    seq![112u8, 103u8, 95u8, 120u8, 97u8, 99u8, 116u8, 47u8]
}

/// The bytes of the directory prefix `pg_multixact/`.
pub open spec fn multixact_dir() -> Seq<u8> {
    seq![112u8, 103u8, 95u8, 109u8, 117u8, 108u8, 116u8, 105u8, 120u8, 97u8, 99u8, 116u8, 47u8]
}

/// The bytes of the file name `pg_filenode.map`.
pub open spec fn filenode_map_name() -> Seq<u8> {
    seq![112u8, 103u8, 95u8, 102u8, 105u8, 108u8, 101u8, 110u8, 111u8, 100u8, 101u8, 46u8, 109u8, 97u8, 112u8]
}

/// The bytes of the file name `pg_control`.
pub open spec fn control_file_name() -> Seq<u8> {
    seq![112u8, 103u8, 95u8, 99u8, 111u8, 110u8, 116u8, 114u8, 111u8, 108u8]
}

/// Does `s` hold no path separator?
pub open spec fn no_slash(s: Seq<u8>) -> bool {
    forall|k: int| 0 <= k < s.len() ==> #[trigger] s[k] != 47
}

/// Is the last path component of `p` exactly `name`?
pub open spec fn has_file_name(p: Seq<u8>, name: Seq<u8>) -> bool {
    p == name || (p.len() > name.len() && p[p.len() - name.len() - 1] == 47 && p.skip(
        p.len() - name.len(),
    ) == name)
}

/// Does `p` parse as a relation data file path: `global/<name>` or
/// `base/<dbid>/<name>` with a well-formed relation file name?
pub open spec fn rel_path_parse_ok(p: Seq<u8>) -> bool {
    if global_dir().is_prefix_of(p) {
        rel_filename_parts(p.skip(7)) is Some
    } else if base_dir().is_prefix_of(p) {
        let rest = p.skip(5);
        let d = digits_len(rest) as int;
        d > 0 && d < rest.len() && rest[d] == 47 && dec_val(rest.take(d)) <= u32::MAX
            && no_slash(rest.skip(d + 1)) && rel_filename_parts(rest.skip(d + 1)) is Some
    } else {
        false
    }
}

/// The failures reported as a bad fork name rather than a bad file name:
/// the path reaches relation-file-name parsing and only the fork is unknown.
pub open spec fn rel_path_bad_fork(p: Seq<u8>) -> bool {
    if global_dir().is_prefix_of(p) {
        rel_filename_bad_fork(p.skip(7))
    } else if base_dir().is_prefix_of(p) {
        let rest = p.skip(5);
        let d = digits_len(rest) as int;
        d > 0 && d < rest.len() && rest[d] == 47 && dec_val(rest.take(d)) <= u32::MAX
            && no_slash(rest.skip(d + 1)) && rel_filename_bad_fork(rest.skip(d + 1))
    } else {
        false
    }
}

/// Is the file at `p` copied verbatim from the snapshot into the archive?
/// Everything under the shared tablespace is; anything under the
/// non-default-tablespace directory is rejected outright; otherwise only
/// files that are no relation data file and are not reconstructed from the
/// repository (the file-node maps, the control file, the commit-log and
/// multixact directories) go in.
pub open spec fn copied_verbatim(p: Seq<u8>) -> bool {
    if global_dir().is_prefix_of(p) {
        true
    } else if tblspc_dir().is_prefix_of(p) {
        false
    } else if !rel_path_parse_ok(p) {
        !has_file_name(p, filenode_map_name()) && !has_file_name(p, control_file_name())
            && !xact_dir().is_prefix_of(p) && !multixact_dir().is_prefix_of(p)
    } else {
        false
    }
}

/// Does `p@` start with the bytes of `pat`?
fn has_prefix(b: &[u8], pat: &Vec<u8>) -> (r: bool)
    ensures
        r == pat@.is_prefix_of(b@),
{
    let n = pat.len();
    if n > b.len() {
        return false;
    }
    let mut i: usize = 0;
    while i < n
        invariant
            0 <= i <= n == pat@.len() <= b@.len(),
            forall|k: int| 0 <= k < i ==> b@[k] == pat@[k],
        decreases n - i,
    {
        if b[i] != pat[i] {
            proof {
                assert(b@.subrange(0, n as int)[i as int] == b@[i as int]);
            }
            return false;
        }
        i += 1;
    }
    proof {
        assert(pat@ =~= b@.subrange(0, n as int));
    }
    true
}

/// Is the last path component of `b` exactly `name`?
fn file_name_is(b: &[u8], name: &Vec<u8>) -> (r: bool)
    ensures
        r == has_file_name(b@, name@),
{
    let n = name.len();
    let len = b.len();
    if len < n {
        proof {
            if b@ == name@ {
                assert(b@.len() == name@.len());
            }
        }
        return false;
    }
    if len > n && b[len - n - 1] != 47 {
        proof {
            if b@ == name@ {
                assert(b@.len() == name@.len());
            }
        }
        return false;
    }
    let mut i: usize = 0;
    while i < n
        invariant
            0 <= i <= n == name@.len() <= len == b@.len(),
            forall|k: int| 0 <= k < i ==> b@[len - n + k] == name@[k],
        decreases n - i,
    {
        if b[len - n + i] != name[i] {
            proof {
                if b@ == name@ {
                    assert(b@[i as int] == name@[i as int]);
                }
                if b@.len() > name@.len() && b@.skip(len - n) == name@ {
                    assert(b@.skip((len - n) as int)[i as int] == b@[len - n + i]);
                }
            }
            return false;
        }
        i += 1;
    }
    proof {
        if len == n {
            assert(b@ =~= name@);
        } else {
            assert(b@.skip((len - n) as int) =~= name@);
        }
    }
    true
}

/// Is there no path separator in `b[from..]`?
fn no_slash_from(b: &[u8], from: usize) -> (r: bool)
    requires
        from <= b@.len(),
    ensures
        r == no_slash(b@.skip(from as int)),
{
    let len = b.len();
    let mut i = from;
    while i < len
        invariant
            from <= i <= len == b@.len(),
            forall|k: int| from <= k < i ==> #[trigger] b@[k] != 47,
        decreases len - i,
    {
        if b[i] == 47 {
            proof {
                assert(b@.skip(from as int)[i - from] == 47);
            }
            return false;
        }
        i += 1;
    }
    proof {
        assert(forall|k: int| 0 <= k < b@.skip(from as int).len() ==> #[trigger] b@.skip(
            from as int,
        )[k] == b@[k + from]);
    }
    true
}

/// The bytes of `global/` as a runtime value.
fn global_dir_bytes() -> (v: Vec<u8>)
    ensures
        v@ =~= global_dir(),
{
    let mut v: Vec<u8> = Vec::new();
    v.push(103u8); v.push(108u8); v.push(111u8); v.push(98u8); v.push(97u8); v.push(108u8);
    v.push(47u8);
    v
}

/// The bytes of `base/` as a runtime value.
fn base_dir_bytes() -> (v: Vec<u8>)
    ensures
        v@ =~= base_dir(),
{
    let mut v: Vec<u8> = Vec::new();
    v.push(98u8); v.push(97u8); v.push(115u8); v.push(101u8); v.push(47u8);
    v
}

/// The bytes of `pg_tblspc/` as a runtime value.
fn tblspc_dir_bytes() -> (v: Vec<u8>)
    ensures
        v@ =~= tblspc_dir(),
{
    let mut v: Vec<u8> = Vec::new();
    v.push(112u8); v.push(103u8); v.push(95u8); v.push(116u8); v.push(98u8); v.push(108u8);
    v.push(115u8); v.push(112u8); v.push(99u8); v.push(47u8);
    v
}

/// The bytes of `pg_xact/` as a runtime value.
fn xact_dir_bytes() -> (v: Vec<u8>)
    ensures
        v@ =~= xact_dir(),
{
    let mut v: Vec<u8> = Vec::new();
    v.push(112u8); v.push(103u8); v.push(95u8); v.push(120u8); v.push(97u8); v.push(99u8);
    v.push(116u8); v.push(47u8);
    v
}

/// The bytes of `pg_multixact/` as a runtime value.
fn multixact_dir_bytes() -> (v: Vec<u8>)
    ensures
        v@ =~= multixact_dir(),
{
    let mut v: Vec<u8> = Vec::new();
    v.push(112u8); v.push(103u8); v.push(95u8); v.push(109u8); v.push(117u8); v.push(108u8);
    v.push(116u8); v.push(105u8); v.push(120u8); v.push(97u8); v.push(99u8); v.push(116u8);
    v.push(47u8);
    v
}

/// The bytes of `pg_filenode.map` as a runtime value.
fn filenode_map_name_bytes() -> (v: Vec<u8>)
    ensures
        v@ =~= filenode_map_name(),
{
    let mut v: Vec<u8> = Vec::new();
    v.push(112u8); v.push(103u8); v.push(95u8); v.push(102u8); v.push(105u8); v.push(108u8);
    v.push(101u8); v.push(110u8); v.push(111u8); v.push(100u8); v.push(101u8); v.push(46u8);
    v.push(109u8); v.push(97u8); v.push(112u8);
    v
}

/// The bytes of `pg_control` as a runtime value.
fn control_file_name_bytes() -> (v: Vec<u8>)
    ensures
        v@ =~= control_file_name(),
{
    let mut v: Vec<u8> = Vec::new();
    v.push(112u8); v.push(103u8); v.push(95u8); v.push(99u8); v.push(111u8); v.push(110u8);
    v.push(116u8); v.push(114u8); v.push(111u8); v.push(108u8);
    v
}

/// Parses the path bytes as a relation data file path.
fn parse_rel_file_path_bytes(b: &[u8]) -> (r: Result<(), FilePathError>)
    ensures
        r is Ok <==> rel_path_parse_ok(b@),
        r == Err::<(), FilePathError>(FilePathError::InvalidForkName) <==> rel_path_bad_fork(b@),
{
    let global_pat = global_dir_bytes();
    let base_pat = base_dir_bytes();
    if has_prefix(b, &global_pat) {
        match parse_relfilename_at(b, 7) {
            Ok(_) => Ok(()),
            Err(e) => Err(e),
        }
    } else if has_prefix(b, &base_pat) {
        let ghost rest = b@.skip(5);
        let len = b.len();
        let d = scan_digits(b, 5);
        if d == 0 {
            return Err(FilePathError::InvalidFileName);
        }
        if 5 + d >= len {
            return Err(FilePathError::InvalidFileName);
        }
        if b[5 + d] != 47 {
            return Err(FilePathError::InvalidFileName);
        }
        proof {
            lemma_digits_len_props(rest);
            assert(forall|k: int| 5 <= k < 5 + d ==> is_digit_byte(#[trigger] b@[k])) by {
                assert(forall|k: int| 5 <= k < 5 + d ==> b@[k] == rest[k - 5]);
            }
            assert(rest.take(d as int) =~= b@.subrange(5, (5 + d) as int));
        }
        let dbid = parse_u32_digits(b, 5, 5 + d);
        if dbid.is_none() {
            return Err(FilePathError::InvalidFileName);
        }
        proof {
            assert(rest.skip(d + 1) =~= b@.skip((5 + d + 1) as int));
        }
        if !no_slash_from(b, 5 + d + 1) {
            return Err(FilePathError::InvalidFileName);
        }
        match parse_relfilename_at(b, 5 + d + 1) {
            Ok(_) => Ok(()),
            Err(e) => Err(e),
        }
    } else {
        // Paths under `pg_tblspc/` (non-default tablespaces, unsupported)
        // and everything else fall through here.
        Err(FilePathError::InvalidFileName)
    }
}

/// Parses a path, relative to the snapshot root, as a relation data file
/// path: `global/<name>` for the shared tablespace or `base/<dbid>/<name>`
/// for the default tablespace. Paths under the non-default-tablespace
/// directory are rejected along with everything else.
pub fn parse_rel_file_path(path: &str) -> (r: Result<(), FilePathError>)
    ensures
        r is Ok <==> rel_path_parse_ok(path.spec_bytes()),
        r == Err::<(), FilePathError>(FilePathError::InvalidForkName) <==> rel_path_bad_fork(
            path.spec_bytes(),
        ),
{
    parse_rel_file_path_bytes(path.as_bytes())
}

/// Does the path name an ordinary relation data file?
pub fn is_rel_file_path(path: &str) -> (r: bool)
    ensures
        r == rel_path_parse_ok(path.spec_bytes()),
{
    parse_rel_file_path_bytes(path.as_bytes()).is_ok()
}

/// Parses a relation file name `<node>[_<fork>][.<segno>]` into node id,
/// fork number and segment number (zero when the suffix is absent).
pub fn parse_relfilename(fname: &str) -> (r: Result<(u32, u8, u32), FilePathError>)
    ensures
        match r {
            Ok(parts) => rel_filename_parts(fname.spec_bytes()) == Some(parts),
            Err(e) => rel_filename_parts(fname.spec_bytes()) is None && (e
                == FilePathError::InvalidForkName <==> rel_filename_bad_fork(fname.spec_bytes())),
        },
{
    let b = fname.as_bytes();
    proof {
        assert(b@.skip(0) =~= b@);
    }
    parse_relfilename_at(b, 0)
}

/// Does the path lie under the non-default-tablespace directory?
/// Tablespaces are unsupported: such a file is never copied, and the
/// caller reports it.
pub fn is_tablespace_path(path: &str) -> (r: bool)
    ensures
        r == tblspc_dir().is_prefix_of(path.spec_bytes()),
{
    let b = path.as_bytes();
    let tblspc_pat = tblspc_dir_bytes();
    has_prefix(b, &tblspc_pat)
}

/// Is the file at this snapshot-relative path copied verbatim into the
/// archive? See `copied_verbatim` for the rule.
pub fn is_copied_verbatim(path: &str) -> (r: bool)
    ensures
        r == copied_verbatim(path.spec_bytes()),
{
    let b = path.as_bytes();
    let global_pat = global_dir_bytes();
    if has_prefix(b, &global_pat) {
        return true;
    }
    let tblspc_pat = tblspc_dir_bytes();
    if has_prefix(b, &tblspc_pat) {
        return false;
    }
    proof {
        assert(tblspc_pat@ == tblspc_dir());
        assert(!tblspc_dir().is_prefix_of(b@));
    }
    if parse_rel_file_path_bytes(b).is_ok() {
        return false;
    }
    let filenode_pat = filenode_map_name_bytes();
    let control_pat = control_file_name_bytes();
    let xact_pat = xact_dir_bytes();
    let multixact_pat = multixact_dir_bytes();
    !file_name_is(b, &filenode_pat) && !file_name_is(b, &control_pat) && !has_prefix(b, &xact_pat)
        && !has_prefix(b, &multixact_pat)
}

/// A well-shaped relation file name holds no path separator: every one of
/// its bytes is a digit, a lowercase letter, an underscore or a dot.
pub proof fn lemma_rel_name_no_slash(f: Seq<u8>)
    requires
        rel_name_split(f) is Some,
    ensures
        no_slash(f),
{
    let d = digits_len(f) as int;
    lemma_digits_len_props(f);
    let rest = f.skip(d);
    let a = lower_len(rest.skip(1)) as int;
    lemma_lower_len_props(rest.skip(1));
    lemma_digits_len_props(rest.skip(1));
    let rest2 = rest.skip(1 + a);
    if rest2.len() > 0 {
        lemma_digits_len_props(rest2.skip(1));
    }
    assert forall|k: int| 0 <= k < f.len() implies #[trigger] f[k] != 47 by {
        if k < d {
            assert(is_digit_byte(f[k]));
        } else if rest.len() > 0 && rest[0] == 95 {
            assert(rest[k - d] == f[k]);
            if k == d {
                assert(f[k] == 95);
            } else if k < d + 1 + a {
                assert(rest.skip(1)[k - d - 1] == f[k]);
                assert(is_lower_byte(f[k]));
            } else {
                assert(rest2[k - d - 1 - a] == f[k]);
                if k == d + 1 + a {
                    assert(f[k] == 46);
                } else {
                    assert(rest2.skip(1)[k - d - 1 - a - 1] == f[k]);
                    assert(is_digit_byte(rest2.skip(1)[k - d - 1 - a - 1]));
                }
            }
        } else if rest.len() > 0 {
            assert(rest[k - d] == f[k]);
            if k == d {
                assert(rest[0] == 46);
            } else {
                assert(rest.skip(1)[k - d - 1] == f[k]);
                assert(is_digit_byte(rest.skip(1)[k - d - 1]));
            }
        }
    }
}

/// Every well-formed relation data file path under the shared tablespace
/// directory is accepted by the classifier.
pub proof fn lemma_classifier_accepts_global(name: Seq<u8>)
    requires
        rel_filename_parts(name) is Some,
    ensures
        rel_path_parse_ok(global_dir() + name),
{
    let p = global_dir() + name;
    assert(global_dir().is_prefix_of(p)) by {
        assert(p.subrange(0, 7) =~= global_dir());
    }
    assert(p.skip(7) =~= name);
}

/// Every well-formed relation data file path under the default tablespace
/// directory, with a well-formed numeric database id, is accepted by the
/// classifier.
pub proof fn lemma_classifier_accepts_base(dbid: Seq<u8>, name: Seq<u8>)
    requires
        is_u32_numeral(dbid),
        rel_filename_parts(name) is Some,
    ensures
        rel_path_parse_ok(base_dir() + dbid + seq![47u8] + name),
{
    let p = base_dir() + dbid + seq![47u8] + name;
    assert(!global_dir().is_prefix_of(p)) by {
        if global_dir().is_prefix_of(p) {
            assert(p.subrange(0, 7)[0] == p[0]);
        }
    }
    assert(base_dir().is_prefix_of(p)) by {
        assert(p.subrange(0, 5) =~= base_dir());
    }
    let rest = p.skip(5);
    assert(rest =~= dbid + seq![47u8] + name);
    let d = dbid.len() as int;
    assert(digits_len(rest) == d) by {
        assert(forall|k: int| 0 <= k < d ==> rest[k] == #[trigger] dbid[k]);
        lemma_digits_len_char(rest, dbid.len());
    }
    assert(rest[d] == 47);
    assert(rest.take(d) =~= dbid);
    assert(rest.skip(d + 1) =~= name);
    lemma_rel_name_no_slash(name);
}

/// No path under the non-default-tablespace directory is ever classified
/// as a relation data file, nor copied into the archive.
pub proof fn lemma_classifier_rejects_tablespace(p: Seq<u8>)
    requires
        tblspc_dir().is_prefix_of(p),
    ensures
        !rel_path_parse_ok(p),
        !copied_verbatim(p),
{
    assert(p.subrange(0, 10)[0] == p[0]);
    assert(p[0] == 112);
    if global_dir().is_prefix_of(p) {
        assert(p.subrange(0, 7)[0] == p[0]);
    }
    if base_dir().is_prefix_of(p) {
        assert(p.subrange(0, 5)[0] == p[0]);
    }
}

} // verus!
