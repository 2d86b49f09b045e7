//! Fixed constants of the target binary format: page and segment sizes,
//! tablespace identifiers, and the write-ahead-log record framing values.

use vstd::prelude::*;

verus! {

/// Size of one data page in bytes.
pub const BLCKSZ: usize = 8192;

/// Number of pages held by one SLRU segment file.
pub const SLRU_PAGES_PER_SEGMENT: u32 = 32;

/// Size of one SLRU segment file in bytes.
pub const SLRU_SEG_SIZE: usize = 8192 * 32;

/// Size of one write-ahead-log segment file in bytes.
pub const WAL_SEGMENT_SIZE: usize = 16 * 1024 * 1024;

/// Size of one write-ahead-log page in bytes.
pub const XLOG_BLCKSZ: usize = 8192;

/// Object identifier of the shared ("global") tablespace.
pub const GLOBALTABLESPACE_OID: u32 = 1664;

/// Object identifier of the default per-database tablespace.
pub const DEFAULTTABLESPACE_OID: u32 = 1663;

/// Size of a file-node map image in bytes.
pub const RELMAP_FILE_SIZE: usize = 512;

/// Magic number carried by every write-ahead-log page header.
pub const XLOG_PAGE_MAGIC: u16 = 0xD10D;

/// Page-header flag: this page starts with a long header.
pub const XLP_LONG_HEADER: u16 = 0x0002;

/// Record info flag for a shutdown checkpoint record.
pub const XLOG_CHECKPOINT_SHUTDOWN: u8 = 0x00;

/// Resource-manager id of the write-ahead-log manager itself.
pub const RM_XLOG_ID: u8 = 0;

/// Block id introducing a short inline data block in a record.
pub const XLR_BLOCK_ID_DATA_SHORT: u8 = 255;

/// Encoded size of a long write-ahead-log page header.
pub const SIZE_OF_XLOG_LONG_PHD: usize = 40;

/// Encoded size of a record header, checksum field included.
pub const XLOG_SIZE_OF_XLOG_RECORD: usize = 24;

/// Offset of the checksum field inside an encoded record header.
pub const XLOG_RECORD_CRC_OFFS: usize = 20;

/// Encoded size of the short inline data block descriptor.
pub const SIZE_OF_XLOG_RECORD_DATA_HEADER_SHORT: usize = 2;

/// The placeholder timeline identifier baked into the synthesized
/// write-ahead log: a single-timeline cluster is assumed.
pub const SYNTHESIZED_TIMELINE_ID: u32 = 1;

} // verus!
