//! The error taxonomy of one archive-generation run.
//!
//! Any of these aborts the whole run: the archive written so far is invalid
//! and the caller must discard it.

use vstd::prelude::*;

verus! {

/// A fatal condition met while generating a basebackup archive.
#[derive(Debug, Clone, PartialEq, Eq)]
pub enum BasebackupError {
    /// A required path could not be resolved or encoded.
    InvalidPath,
    /// The repository handed back an SLRU page image of the given length,
    /// which is neither empty nor exactly one page.
    BadSlruPageSize(usize),
    /// A file-node map image of the given length instead of the fixed map size.
    BadRelmapSize(usize),
    /// A file-node map names a tablespace other than the shared or the
    /// default one; tablespaces are not supported.
    UnsupportedTablespace(u32),
    /// The control-file image is too short to decode (its length is given).
    BadControlFile(usize),
    /// The checkpoint image has the wrong length to decode (its length is given).
    BadCheckpoint(usize),
    /// A per-database file-node map was requested but the snapshot holds no
    /// version marker file to copy beside it.
    MissingVersionFile,
    /// The archive sink refused an entry (the message comes from the sink).
    Archive(String),
    /// The repository failed to list or fetch an object.
    Repository(String),
}

} // verus!
