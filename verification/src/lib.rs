//! Generation of a self-consistent "basebackup" archive: given a snapshot
//! directory tree and a page repository, emit a tar stream holding the files a
//! database engine needs to start from cold, including a synthesized control
//! file and one write-ahead-log segment.

pub mod basebackup;
pub mod bytes_le;
pub mod checkpoint;
pub mod crc32;
pub mod errors;
pub mod lsn;
pub mod numfmt;
pub mod pg_constants;
pub mod relpath;
pub mod remote_storage;
pub mod slru;
pub mod tario;
pub mod xlog_utils;

pub use basebackup::{Basebackup, DatabaseTag, ObjectTag, Phase, PrepareTag, SlruPage, Timeline};
pub use errors::BasebackupError;
pub use lsn::Lsn;
pub use remote_storage::TimelineSyncId;
pub use slru::{SlruAccumulator, SlruCategory};
