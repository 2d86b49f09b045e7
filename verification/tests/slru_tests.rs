//! The SLRU segment accumulator: placement, flush-on-change, and the
//! empty-image and empty-run cases.

use basebackup::errors::BasebackupError;
use basebackup::slru::{SlruAccumulator, SlruCategory};

const BLCKSZ: usize = 8192;
const SEG_SIZE: usize = 8192 * 32;

fn page(fill: u8) -> Vec<u8> {
    vec![fill; BLCKSZ]
}

#[test]
fn places_pages_at_their_slots() {
    let mut acc = SlruAccumulator::new();
    assert_eq!(acc.add(SlruCategory::Clog, 0, &page(0xAA)), Ok(None));
    assert_eq!(acc.add(SlruCategory::Clog, 3, &page(0xBB)), Ok(None));
    let (path, buf) = acc.finish().expect("one segment buffered");
    assert_eq!(path, "pg_xact/0000");
    assert_eq!(buf.len(), SEG_SIZE);
    assert!(buf[0..BLCKSZ].iter().all(|&b| b == 0xAA));
    assert!(buf[3 * BLCKSZ..4 * BLCKSZ].iter().all(|&b| b == 0xBB));
    // Every byte under no written page stays zero.
    assert!(buf[BLCKSZ..3 * BLCKSZ].iter().all(|&b| b == 0));
    assert!(buf[4 * BLCKSZ..].iter().all(|&b| b == 0));
}

#[test]
fn segment_change_flushes_exactly_one_entry() {
    let mut acc = SlruAccumulator::new();
    assert_eq!(acc.add(SlruCategory::Clog, 31, &page(1)), Ok(None));
    // Page 32 opens segment 1: segment 0 must come out first.
    let flushed = acc.add(SlruCategory::Clog, 32, &page(2)).unwrap();
    let (path, buf) = flushed.expect("previous segment flushed");
    assert_eq!(path, "pg_xact/0000");
    assert_eq!(buf.len(), SEG_SIZE);
    assert!(buf[31 * BLCKSZ..32 * BLCKSZ].iter().all(|&b| b == 1));
    let (path2, buf2) = acc.finish().expect("new segment buffered");
    assert_eq!(path2, "pg_xact/0001");
    assert!(buf2[0..BLCKSZ].iter().all(|&b| b == 2));
    // The new segment started from zeros.
    assert!(buf2[BLCKSZ..].iter().all(|&b| b == 0));
}

#[test]
fn category_change_flushes_exactly_one_entry() {
    let mut acc = SlruAccumulator::new();
    assert_eq!(acc.add(SlruCategory::Clog, 0, &page(1)), Ok(None));
    let flushed = acc
        .add(SlruCategory::MultiXactMembers, 0, &page(2))
        .unwrap();
    let (path, _) = flushed.expect("commit-log segment flushed");
    assert_eq!(path, "pg_xact/0000");
    let (path2, _) = acc.finish().expect("members segment buffered");
    assert_eq!(path2, "pg_multixact/members/0000");
}

#[test]
fn offsets_category_has_its_own_directory() {
    let mut acc = SlruAccumulator::new();
    assert_eq!(acc.add(SlruCategory::MultiXactOffsets, 64, &page(3)), Ok(None));
    let (path, _) = acc.finish().expect("segment buffered");
    assert_eq!(path, "pg_multixact/offsets/0002");
}

#[test]
fn segment_number_prints_as_four_hex_digits() {
    let mut acc = SlruAccumulator::new();
    assert_eq!(acc.add(SlruCategory::Clog, 0xAB * 32, &page(1)), Ok(None));
    let (path, _) = acc.finish().unwrap();
    assert_eq!(path, "pg_xact/00AB");
    // Wider segment numbers keep all their digits.
    let mut acc = SlruAccumulator::new();
    assert_eq!(acc.add(SlruCategory::Clog, 0x12345 * 32, &page(1)), Ok(None));
    let (path, _) = acc.finish().unwrap();
    assert_eq!(path, "pg_xact/12345");
}

#[test]
fn empty_image_changes_nothing() {
    let mut acc = SlruAccumulator::new();
    assert_eq!(acc.add(SlruCategory::Clog, 5, &Vec::new()), Ok(None));
    assert_eq!(acc.finish(), None);
    // Also when a segment is already buffered: no flush, no write.
    let mut acc = SlruAccumulator::new();
    assert_eq!(acc.add(SlruCategory::Clog, 0, &page(7)), Ok(None));
    assert_eq!(acc.add(SlruCategory::MultiXactMembers, 99, &Vec::new()), Ok(None));
    let (path, buf) = acc.finish().expect("segment still buffered");
    assert_eq!(path, "pg_xact/0000");
    assert!(buf[0..BLCKSZ].iter().all(|&b| b == 7));
}

#[test]
fn wrong_page_size_is_fatal() {
    let mut acc = SlruAccumulator::new();
    assert_eq!(
        acc.add(SlruCategory::Clog, 0, &vec![0u8; 100]),
        Err(BasebackupError::BadSlruPageSize(100))
    );
}

#[test]
fn finish_without_additions_yields_nothing() {
    let mut acc = SlruAccumulator::new();
    assert_eq!(acc.finish(), None);
}
