//! The archive sink: an in-memory tar stream built by an outside crate.
//! The stream is modeled by the sequence of entries appended so far; each
//! entry is its path, whether it is a directory, and its payload bytes.

use vstd::prelude::*;
use crate::errors::BasebackupError;

verus! {

/// An in-memory tar stream under construction. The outside builder is
/// opaque to the verifier; the stream is spoken of only through
/// `tar_entries`.
#[verifier::external_body]
pub struct TarSink {
    inner: tar::Builder<Vec<u8>>,
}

/// The entries appended so far to the tar stream: for each, its path,
/// whether it is a directory entry, and its payload bytes.
pub uninterp spec fn tar_entries(ar: TarSink) -> Seq<(Seq<char>, bool, Seq<u8>)>;

/// The bytes the stream yields when it is finished: the encoded entries
/// followed by the end-of-archive marker. A function of the stream alone.
pub uninterp spec fn tar_stream_bytes(ar: TarSink) -> Seq<u8>;

/// Does a component of `p` start at `i` that is `.` or `..`? Such
/// components are stripped or refused by the header's path encoding.
pub open spec fn dot_component_at(p: Seq<char>, i: int) -> bool {
    &&& (i == 0 || p[i - 1] == '/')
    &&& p[i] == '.'
    &&& (i + 1 == p.len() || p[i + 1] == '/' || (p[i + 1] == '.' && (i + 2 == p.len() || p[i + 2]
        == '/')))
}

/// A name the header's fixed path field is sure to take, stored byte for
/// byte: printable ASCII, at most the field's 100 bytes, relative, with no
/// empty, `.` or `..` components.
pub open spec fn tar_name_ok(p: Seq<char>) -> bool {
    &&& 0 < p.len() <= 100
    &&& (forall|k: int| 0 <= k < p.len() ==> 32 <= (#[trigger] p[k]) as int <= 126)
    &&& p[0] != '/'
    &&& p[p.len() - 1] != '/'
    &&& (forall|k: int| 0 < k < p.len() ==> !((#[trigger] p[k]) == '/' && p[k - 1] == '/'))
    &&& (forall|k: int| 0 <= k < p.len() ==> !dot_component_at(p, k))
}

/// Relies on tar::Builder::new: a builder over a fresh buffer holds no
/// entries yet.
#[verifier::external_body]
pub fn tar_new() -> (ar: TarSink)
    ensures
        tar_entries(ar) == Seq::<(Seq<char>, bool, Seq<u8>)>::empty(),
{
    TarSink { inner: tar::Builder::new(Vec::new()) }
}

/// Relies on tar::Header (new_gnu, set_size, set_path, set_mode,
/// set_mtime, set_cksum) and tar::Builder::append. The header's path
/// encoding refuses an empty or absolute name, a `..` component, a nul
/// byte and anything over the field's 100 bytes, and it rewrites `.`
/// components and doubled separators rather than storing them; a name that
/// `tar_name_ok` admits is therefore encoded byte for byte and the append
/// adds exactly one file entry. Writing to a byte buffer cannot fail, so
/// the call succeeds on every admitted name.
#[verifier::external_body]
pub fn tar_append_file(
    ar: &mut TarSink,
    path: &str,
    mode: u32,
    mtime: u64,
    data: &[u8],
) -> (r: Result<(), BasebackupError>)
    requires
        tar_name_ok(path@),
    ensures
        r is Ok,
        tar_entries(*final(ar)) == tar_entries(*old(ar)).push((path@, false, data@)),
{
    let mut header = tar::Header::new_gnu();
    header.set_size(data.len() as u64);
    if let Err(e) = header.set_path(path) {
        return Err(BasebackupError::Archive(e.to_string()));
    }
    header.set_mode(mode);
    header.set_mtime(mtime);
    header.set_cksum();
    ar.inner.append(&header, data).map_err(|e| BasebackupError::Archive(e.to_string()))
}

/// Relies on the same tar::Header methods plus set_entry_type with
/// tar::EntryType::dir, under the same admitted names: the append adds
/// exactly one directory entry with no payload, and it succeeds.
#[verifier::external_body]
pub fn tar_append_dir(
    ar: &mut TarSink,
    path: &str,
    mode: u32,
    mtime: u64,
) -> (r: Result<(), BasebackupError>)
    requires
        tar_name_ok(path@),
    ensures
        r is Ok,
        tar_entries(*final(ar)) == tar_entries(*old(ar)).push(
            (path@, true, Seq::<u8>::empty()),
        ),
{
    let mut header = tar::Header::new_gnu();
    header.set_entry_type(tar::EntryType::dir());
    header.set_size(0);
    if let Err(e) = header.set_path(path) {
        return Err(BasebackupError::Archive(e.to_string()));
    }
    header.set_mode(mode);
    header.set_mtime(mtime);
    header.set_cksum();
    let empty: &[u8] = &[];
    ar.inner.append(&header, empty).map_err(|e| BasebackupError::Archive(e.to_string()))
}

/// Relies on tar::Builder::into_inner: finishing writes only the
/// end-of-archive marker and hands the buffer back; writing to a byte
/// buffer cannot fail, and the bytes are a function of the stream alone.
#[verifier::external_body]
pub fn tar_finish(ar: TarSink) -> (r: Result<Vec<u8>, BasebackupError>)
    ensures
        r is Ok,
        r matches Ok(b) ==> b@ == tar_stream_bytes(ar),
{
    ar.inner.into_inner().map_err(|e| BasebackupError::Archive(e.to_string()))
}

/// The conditions of `tar_name_ok` with the dot-component check replaced
/// by a simpler one: any `.` must follow a non-separator, so no component
/// can start with it.
pub proof fn lemma_name_ok_from_chars(p: Seq<char>)
    requires
        0 < p.len() <= 100,
        forall|k: int| 0 <= k < p.len() ==> 32 <= (#[trigger] p[k]) as int <= 126,
        p[0] != '/',
        p[p.len() - 1] != '/',
        forall|k: int| 0 < k < p.len() ==> !((#[trigger] p[k]) == '/' && p[k - 1] == '/'),
        forall|k: int| 0 <= k < p.len() && (#[trigger] p[k]) == '.' ==> k > 0 && p[k - 1] != '/',
    ensures
        tar_name_ok(p),
{
}

/// Checks whether the archive sink is sure to take this name unchanged.
pub fn is_tar_name_ok(path: &str) -> (r: bool)
    ensures
        r == tar_name_ok(path@),
{
    let n = path.unicode_len();
    if n == 0 || n > 100 {
        return false;
    }
    if path.get_char(0) == '/' {
        return false;
    }
    if path.get_char(n - 1) == '/' {
        return false;
    }
    let mut k: usize = 0;
    while k < n
        invariant
            0 <= k <= n == path@.len(),
            0 < n <= 100,
            forall|j: int| 0 <= j < k ==> 32 <= (#[trigger] path@[j]) as int <= 126,
            forall|j: int| 0 < j < k ==> !((#[trigger] path@[j]) == '/' && path@[j - 1] == '/'),
            forall|j: int| 0 <= j < k ==> !dot_component_at(path@, j),
        decreases n - k,
    {
        let c = path.get_char(k);
        if !(32 <= c as u32 && c as u32 <= 126) {
            return false;
        }
        if k > 0 && c == '/' && path.get_char(k - 1) == '/' {
            return false;
        }
        if c == '.' && (k == 0 || path.get_char(k - 1) == '/') {
            // A component starts here with a dot: refuse `.` and `..`.
            if k + 1 == n {
                proof {
                    assert(dot_component_at(path@, k as int));
                }
                return false;
            }
            let c1 = path.get_char(k + 1);
            if c1 == '/' {
                proof {
                    assert(dot_component_at(path@, k as int));
                }
                return false;
            }
            if c1 == '.' && (k + 2 == n || path.get_char(k + 2) == '/') {
                proof {
                    assert(dot_component_at(path@, k as int));
                }
                return false;
            }
        }
        k += 1;
    }
    true
}

} // verus!
