//! The checkpoint and control-file codecs, the two-phase trailer, the
//! synthesized write-ahead-log segment, and path arithmetic.

use basebackup::basebackup::twophase_image;
use basebackup::checkpoint::{
    decode_checkpoint, decode_pg_control, encode_checkpoint, encode_pg_control, Checkpoint,
    ControlFile,
};
use basebackup::errors::BasebackupError;
use basebackup::lsn::Lsn;
use basebackup::remote_storage::{strip_path_prefix, ZTenantId};
use basebackup::xlog_utils::{generate_wal_segment, next_segment_redo, wal_file_name};

const WAL_SEG: usize = 16 * 1024 * 1024;

fn sample_checkpoint() -> Checkpoint {
    Checkpoint {
        redo: 0x0123_4567_89AB_CDEF,
        this_timeline: 1,
        prev_timeline: 1,
        full_page_writes: 1,
        next_xid: 1000,
        next_oid: 24576,
        next_multi: 5,
        next_multi_offset: 6,
        oldest_xid: 3,
        oldest_xid_db: 1,
        oldest_multi: 2,
        oldest_multi_db: 1,
        time: 1_600_000_000,
        oldest_commit_ts_xid: 0,
        newest_commit_ts_xid: 0,
        oldest_active_xid: 42,
    }
}

#[test]
fn checkpoint_roundtrips() {
    let cp = sample_checkpoint();
    let bytes = encode_checkpoint(&cp);
    assert_eq!(bytes.len(), 73);
    // The redo pointer is the first little-endian quadword.
    assert_eq!(&bytes[0..8], &[0xEF, 0xCD, 0xAB, 0x89, 0x67, 0x45, 0x23, 0x01]);
    let back = decode_checkpoint(&bytes).expect("well-sized image decodes");
    assert_eq!(back, cp);
}

#[test]
fn checkpoint_of_wrong_size_is_refused() {
    assert_eq!(
        decode_checkpoint(&vec![0u8; 72]),
        Err(BasebackupError::BadCheckpoint(72))
    );
    assert_eq!(
        decode_checkpoint(&vec![0u8; 74]),
        Err(BasebackupError::BadCheckpoint(74))
    );
}

#[test]
fn control_file_roundtrips() {
    let cf = ControlFile {
        system_identifier: 0xDEAD_BEEF_0000_0001,
        check_point: 0x100_0028,
        checkpoint_copy: sample_checkpoint(),
        tail: vec![9u8; 100],
    };
    let bytes = encode_pg_control(&cf);
    assert_eq!(bytes.len(), 89 + 100);
    let back = decode_pg_control(&bytes).expect("long-enough image decodes");
    assert_eq!(back.system_identifier, cf.system_identifier);
    assert_eq!(back.check_point, cf.check_point);
    assert_eq!(back.checkpoint_copy, cf.checkpoint_copy);
    assert_eq!(back.tail, cf.tail);
    assert_eq!(encode_pg_control(&back), bytes);
}

#[test]
fn short_control_file_is_refused() {
    assert_eq!(
        decode_pg_control(&vec![0u8; 88]),
        Err(BasebackupError::BadControlFile(88))
    );
}

#[test]
fn twophase_trailer_is_the_crc_of_the_image() {
    let img = b"two-phase state".to_vec();
    let out = twophase_image(&img);
    assert_eq!(&out[..img.len()], &img[..]);
    let crc = crc32c::crc32c(&img);
    assert_eq!(&out[img.len()..], &crc.to_le_bytes());
}

#[test]
fn empty_twophase_image_gets_only_the_trailer() {
    let out = twophase_image(&Vec::new());
    assert_eq!(out, crc32c::crc32c(&[]).to_le_bytes().to_vec());
}

#[test]
fn wal_segment_layout_and_checksum() {
    let (_, redo) = next_segment_redo(Lsn(0));
    let mut cp = sample_checkpoint();
    cp.redo = redo;
    let sysid: u64 = 0x1122_3344_5566_7788;
    let seg = generate_wal_segment(&cp, sysid);
    assert_eq!(seg.len(), WAL_SEG);
    // Long page header: magic, long-header flag, timeline, page address
    // (the segment start), then system identifier and sizes.
    assert_eq!(&seg[0..2], &0xD10Du16.to_le_bytes());
    assert_eq!(&seg[2..4], &0x0002u16.to_le_bytes());
    assert_eq!(&seg[4..8], &1u32.to_le_bytes());
    assert_eq!(&seg[8..16], &(redo - 40).to_le_bytes());
    assert_eq!(&seg[24..32], &sysid.to_le_bytes());
    assert_eq!(&seg[32..36], &(WAL_SEG as u32).to_le_bytes());
    assert_eq!(&seg[36..40], &8192u32.to_le_bytes());
    // Record header prefix: total length 99, shutdown-checkpoint info.
    assert_eq!(&seg[40..44], &99u32.to_le_bytes());
    // The short data-block descriptor and the checkpoint payload.
    assert_eq!(seg[64], 255);
    assert_eq!(seg[65], 73);
    assert_eq!(&seg[66..139], &encode_checkpoint(&cp)[..]);
    // The checksum field covers descriptor, payload and header prefix in
    // that order.
    let mut crc = crc32c::crc32c(&seg[64..66]);
    crc = crc32c::crc32c_append(crc, &seg[66..139]);
    crc = crc32c::crc32c_append(crc, &seg[40..60]);
    assert_eq!(&seg[60..64], &crc.to_le_bytes());
    // Everything after the record is zero.
    assert!(seg[139..].iter().all(|&b| b == 0));
}

#[test]
fn redo_moves_to_the_next_segment() {
    // A position inside segment 5.
    let lsn = Lsn(5 * WAL_SEG as u64 + 1234);
    let (segno, redo) = next_segment_redo(lsn);
    assert_eq!(segno, 6);
    assert_eq!(redo, 6 * WAL_SEG as u64 + 40);
    // A position exactly on a segment boundary still moves forward.
    let (segno, redo) = next_segment_redo(Lsn(2 * WAL_SEG as u64));
    assert_eq!(segno, 3);
    assert_eq!(redo, 3 * WAL_SEG as u64 + 40);
}

#[test]
fn wal_file_names_encode_timeline_and_segment() {
    assert_eq!(wal_file_name(1, 6), "000000010000000000000006");
    assert_eq!(wal_file_name(1, 0x1AB), "0000000100000001000000AB");
    assert_eq!(wal_file_name(0xDEAD, 256), "0000DEAD0000000100000000");
}

#[test]
fn strips_path_prefixes() {
    assert_eq!(strip_path_prefix("a/b", "a/b/c/d"), Ok("c/d"));
    assert_eq!(strip_path_prefix("a", "a/b"), Ok("b"));
    assert!(strip_path_prefix("a/b", "a/b").is_err());
    assert!(strip_path_prefix("a/b", "a/bc/d").is_err());
    assert!(strip_path_prefix("x", "a/b").is_err());
}

#[test]
fn identifiers_print_as_32_hex_digits() {
    let id = ZTenantId { hi: 0x0011223344556677, lo: 0x8899AABBCCDDEEFF };
    assert_eq!(id.hex_string(), "00112233445566778899AABBCCDDEEFF");
}
