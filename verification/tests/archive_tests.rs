//! End-to-end archive generation against an in-memory repository.

use std::io::Read;

use basebackup::basebackup::{Basebackup, DatabaseTag, ObjectTag, PrepareTag, SlruPage, Timeline};
use basebackup::checkpoint::{decode_pg_control, encode_checkpoint, encode_pg_control, Checkpoint, ControlFile};
use basebackup::errors::BasebackupError;
use basebackup::lsn::Lsn;

const WAL_SEG: usize = 16 * 1024 * 1024;
const SLRU_SEG: usize = 8192 * 32;

/// An in-memory repository: a fixed object list and a page store.
struct FakeTimeline {
    tags: Vec<ObjectTag>,
    pages: Vec<(ObjectTag, Vec<u8>)>,
}

impl Timeline for FakeTimeline {
    fn list_nonrels(&self, _lsn: Lsn) -> Result<Vec<ObjectTag>, String> {
        Ok(self.tags.clone())
    }

    fn get_page_at_lsn_nowait(&self, tag: ObjectTag, _lsn: Lsn) -> Result<Vec<u8>, String> {
        for (t, img) in &self.pages {
            if *t == tag {
                return Ok(img.clone());
            }
        }
        Err(format!("object not found: {:?}", tag))
    }
}

fn base_checkpoint() -> Checkpoint {
    Checkpoint {
        redo: 7,
        this_timeline: 1,
        prev_timeline: 1,
        full_page_writes: 1,
        next_xid: 1000,
        next_oid: 24576,
        next_multi: 1,
        next_multi_offset: 0,
        oldest_xid: 3,
        oldest_xid_db: 1,
        oldest_multi: 1,
        oldest_multi_db: 1,
        time: 1_600_000_000,
        oldest_commit_ts_xid: 0,
        newest_commit_ts_xid: 0,
        oldest_active_xid: 77,
    }
}

fn sentinel_pages() -> Vec<(ObjectTag, Vec<u8>)> {
    let cf = ControlFile {
        system_identifier: 0xABCD_EF01_2345_6789,
        check_point: 7,
        checkpoint_copy: base_checkpoint(),
        tail: vec![5u8; 31],
    };
    vec![
        (ObjectTag::Checkpoint, encode_checkpoint(&base_checkpoint())),
        (ObjectTag::ControlFile, encode_pg_control(&cf)),
    ]
}

fn entries_of(bytes: &[u8]) -> Vec<(String, u64, Vec<u8>)> {
    let mut ar = tar::Archive::new(bytes);
    let mut out = Vec::new();
    for entry in ar.entries().expect("readable archive") {
        let mut entry = entry.expect("readable entry");
        let path = entry.path().unwrap().to_str().unwrap().to_string();
        let size = entry.header().size().unwrap();
        let mut data = Vec::new();
        entry.read_to_end(&mut data).unwrap();
        out.push((path, size, data));
    }
    out
}

#[test]
fn empty_repository_still_yields_control_file_and_wal_segment() {
    let timeline = FakeTimeline { tags: Vec::new(), pages: sentinel_pages() };
    let lsn = Lsn(3 * WAL_SEG as u64 + 99);
    let mut bb = Basebackup::new(lsn, 1_700_000_000, None);
    bb.process_objects(&timeline).unwrap();
    bb.finish_slru_segment().unwrap();
    bb.add_pgcontrol_file(&timeline).unwrap();
    let bytes = bb.finish().unwrap();

    let entries = entries_of(&bytes);
    assert_eq!(entries.len(), 2);
    assert_eq!(entries[0].0, "global/pg_control");
    assert_eq!(entries[0].1, 89 + 31);
    // Target position inside segment 3: the new segment is 4.
    assert_eq!(entries[1].0, "pg_wal/000000010000000000000004");
    assert_eq!(entries[1].1, WAL_SEG as u64);

    // Both redo pointers moved to the start of data of segment 4, and the
    // transaction horizon was cleared.
    let control = decode_pg_control(&entries[0].2).unwrap();
    let expect_redo = 4 * WAL_SEG as u64 + 40;
    assert_eq!(control.check_point, expect_redo);
    assert_eq!(control.checkpoint_copy.redo, expect_redo);
    assert_eq!(control.checkpoint_copy.oldest_active_xid, 0);
    assert_eq!(control.system_identifier, 0xABCD_EF01_2345_6789);
    assert_eq!(control.tail, vec![5u8; 31]);
    // The segment's page address is the segment start.
    assert_eq!(&entries[1].2[8..16], &(4 * WAL_SEG as u64).to_le_bytes());
}

#[test]
fn objects_are_routed_to_their_encoders() {
    let mut pages = sentinel_pages();
    let clog0 = ObjectTag::Clog(SlruPage { blknum: 0 });
    let clog40 = ObjectTag::Clog(SlruPage { blknum: 40 });
    let members = ObjectTag::MultiXactMembers(SlruPage { blknum: 1 });
    let shared_map = ObjectTag::FileNodeMap(DatabaseTag { spcnode: 1664, dbnode: 0 });
    let db_map = ObjectTag::FileNodeMap(DatabaseTag { spcnode: 1663, dbnode: 16384 });
    let twophase = ObjectTag::TwoPhase(PrepareTag { xid: 0xAB });
    pages.push((clog0, vec![1u8; 8192]));
    pages.push((clog40, vec![2u8; 8192]));
    pages.push((members, vec![3u8; 8192]));
    pages.push((shared_map, vec![4u8; 512]));
    pages.push((db_map, vec![6u8; 512]));
    pages.push((twophase, b"prepared!".to_vec()));
    let timeline = FakeTimeline {
        tags: vec![clog0, clog40, members, shared_map, db_map, twophase, ObjectTag::Checkpoint],
        pages,
    };

    let lsn = Lsn(42);
    let mut bb = Basebackup::new(lsn, 1_700_000_000, Some(b"14\n".to_vec()));
    bb.process_objects(&timeline).unwrap();
    bb.finish_slru_segment().unwrap();
    bb.add_pgcontrol_file(&timeline).unwrap();
    let bytes = bb.finish().unwrap();

    let entries = entries_of(&bytes);
    let names: Vec<&str> = entries.iter().map(|e| e.0.as_str()).collect();
    // The second commit-log segment flushes when the members page arrives
    // (category change); the members segment itself stays resident until
    // the accumulator is finished, after the per-object encoders.
    assert_eq!(
        names,
        vec![
            "pg_xact/0000",
            "pg_xact/0001",
            "global/pg_filenode.map",
            "base/16384/PG_VERSION",
            "base/16384/pg_filenode.map",
            "pg_twophase/000000AB",
            "pg_multixact/members/0000",
            "global/pg_control",
            "pg_wal/000000010000000000000001",
        ]
    );
    // The two commit-log segments hold their pages at the right offsets.
    assert_eq!(entries[0].1, SLRU_SEG as u64);
    assert!(entries[0].2[0..8192].iter().all(|&b| b == 1));
    assert!(entries[0].2[8192..].iter().all(|&b| b == 0));
    assert!(entries[1].2[8 * 8192..9 * 8192].iter().all(|&b| b == 2));
    assert!(entries[6].2[8192..2 * 8192].iter().all(|&b| b == 3));
    // The shared and per-database maps carry the 512-byte images.
    assert_eq!(entries[2].1, 512);
    assert_eq!(entries[3].2, b"14\n".to_vec());
    assert_eq!(entries[4].1, 512);
    // The two-phase file is the image plus its checksum trailer.
    let mut expect = b"prepared!".to_vec();
    expect.extend_from_slice(&crc32c::crc32c(b"prepared!").to_le_bytes());
    assert_eq!(entries[5].2, expect);
}

#[test]
fn snapshot_files_obey_the_copy_decision() {
    let timeline = FakeTimeline { tags: Vec::new(), pages: sentinel_pages() };
    let mut bb = Basebackup::new(Lsn(0), 1_700_000_000, None);
    bb.add_dir_entry("base", 0o700).unwrap();
    bb.add_snapshot_file("postgresql.conf", 0o600, &b"max_connections=100\n".to_vec()).unwrap();
    bb.add_snapshot_file("base/16384/5678", 0o600, &b"relation data".to_vec()).unwrap();
    bb.add_snapshot_file("global/1262", 0o644, &b"shared catalog".to_vec()).unwrap();
    bb.process_objects(&timeline).unwrap();
    bb.finish_slru_segment().unwrap();
    bb.add_pgcontrol_file(&timeline).unwrap();
    let bytes = bb.finish().unwrap();

    let entries = entries_of(&bytes);
    let names: Vec<&str> = entries.iter().map(|e| e.0.as_str()).collect();
    // The relation data file under the default tablespace was skipped; the
    // shared-tablespace file went in although it names a relation.
    assert_eq!(
        names,
        vec![
            "base",
            "postgresql.conf",
            "global/1262",
            "global/pg_control",
            "pg_wal/000000010000000000000001",
        ]
    );
    assert_eq!(entries[1].2, b"max_connections=100\n".to_vec());
}

#[test]
fn unsupported_tablespace_aborts_the_run() {
    let mut pages = sentinel_pages();
    let weird_map = ObjectTag::FileNodeMap(DatabaseTag { spcnode: 12345, dbnode: 1 });
    pages.push((weird_map, vec![0u8; 512]));
    let timeline = FakeTimeline { tags: vec![weird_map], pages };
    let mut bb = Basebackup::new(Lsn(0), 0, None);
    assert_eq!(
        bb.process_objects(&timeline),
        Err(BasebackupError::UnsupportedTablespace(12345))
    );
}

#[test]
fn missing_version_marker_aborts_the_run() {
    let mut pages = sentinel_pages();
    let db_map = ObjectTag::FileNodeMap(DatabaseTag { spcnode: 1663, dbnode: 5 });
    pages.push((db_map, vec![0u8; 512]));
    let timeline = FakeTimeline { tags: vec![db_map], pages };
    let mut bb = Basebackup::new(Lsn(0), 0, None);
    assert_eq!(
        bb.process_objects(&timeline),
        Err(BasebackupError::MissingVersionFile)
    );
}

#[test]
fn wrong_relmap_size_aborts_the_run() {
    let mut pages = sentinel_pages();
    let shared_map = ObjectTag::FileNodeMap(DatabaseTag { spcnode: 1664, dbnode: 0 });
    pages.push((shared_map, vec![0u8; 100]));
    let timeline = FakeTimeline { tags: vec![shared_map], pages };
    let mut bb = Basebackup::new(Lsn(0), 0, None);
    assert_eq!(
        bb.process_objects(&timeline),
        Err(BasebackupError::BadRelmapSize(100))
    );
}

#[test]
fn repository_failure_aborts_the_run() {
    // The page for the listed object is missing: the fetch fails and the
    // whole run aborts with the repository's message.
    let clog = ObjectTag::Clog(SlruPage { blknum: 0 });
    let timeline = FakeTimeline { tags: vec![clog], pages: Vec::new() };
    let mut bb = Basebackup::new(Lsn(0), 0, None);
    match bb.process_objects(&timeline) {
        Err(BasebackupError::Repository(m)) => assert!(m.contains("object not found")),
        other => panic!("expected a repository error, got {:?}", other),
    }
}

#[test]
fn unencodable_path_aborts_the_run() {
    // A name too long for the archive header's path field is refused
    // before anything reaches the sink.
    let long = format!("global/{}", "x".repeat(150));
    let mut bb = Basebackup::new(Lsn(0), 0, None);
    assert_eq!(
        bb.add_snapshot_file(&long, 0o600, &b"data".to_vec()),
        Err(BasebackupError::InvalidPath)
    );
    // So is a name the header encoding would rewrite rather than store
    // byte for byte: the model never drifts from the written archive.
    assert_eq!(
        bb.add_snapshot_file("global/./1262", 0o600, &b"data".to_vec()),
        Err(BasebackupError::InvalidPath)
    );
    assert_eq!(
        bb.add_dir_entry("base//1", 0o700),
        Err(BasebackupError::InvalidPath)
    );
}
