//! Generation of one basebackup archive: the repository capability, the
//! object tags, and the orchestrator that drives snapshot files and
//! repository objects into the tar stream in the required order.

use vstd::prelude::*;
use crate::bytes_le::{le64_at, u32_le, u64_le};
use crate::checkpoint::{
    checkpoint_dec, checkpoint_enc, decode_checkpoint, decode_pg_control, encode_pg_control,
    Checkpoint, ControlFile, CHECKPOINT_BYTES, CONTROL_FILE_PREFIX,
};
use crate::crc32::{crc32c_extend, crc32c_of};
use crate::errors::BasebackupError;
use crate::lsn::Lsn;
use crate::numfmt::{
    dec_str, hex_str_pad, is_digit_char, lemma_dec_str_props, lemma_hex_str_pad_props,
    lemma_sixteen_pow_16, lemma_sixteen_pow_8, lemma_ten_pow_10, push_dec, push_hex_pad,
};
use crate::pg_constants::{
    BLCKSZ, DEFAULTTABLESPACE_OID, GLOBALTABLESPACE_OID, RELMAP_FILE_SIZE, SIZE_OF_XLOG_LONG_PHD,
    SLRU_SEG_SIZE, SYNTHESIZED_TIMELINE_ID, WAL_SEGMENT_SIZE,
};
use crate::relpath::{copied_verbatim, is_copied_verbatim};
use crate::slru::{
    lemma_slru_path_name_ok, slru_entry_path, write_page, zero_bytes, SlruAccumulator,
    SlruCategory,
};
use crate::tario::{
    is_tar_name_ok, lemma_name_ok_from_chars, tar_append_dir, tar_append_file, tar_entries,
    tar_finish, tar_name_ok, tar_new, tar_stream_bytes, TarSink,
};
use crate::xlog_utils::{
    generate_wal_segment, next_segment_redo, wal_file_name, wal_file_name_chars, wal_segment_enc,
};
use vstd::string::StringSliceAdditionalSpecFns;

verus! {

/// A transaction identifier.
pub type TransactionId = u32;

/// Addressing fields of one SLRU page.
#[derive(Debug, Clone, Copy, PartialEq, Eq, Structural)]
pub struct SlruPage {
    /// The page number within the whole log.
    pub blknum: u32,
}

/// A database, identified by its tablespace and database ids.
#[derive(Debug, Clone, Copy, PartialEq, Eq, Structural)]
pub struct DatabaseTag {
    /// The tablespace the database lives in.
    pub spcnode: u32,
    /// The database id.
    pub dbnode: u32,
}

/// A prepared two-phase transaction.
#[derive(Debug, Clone, Copy, PartialEq, Eq, Structural)]
pub struct PrepareTag {
    /// The transaction that was prepared.
    pub xid: TransactionId,
}

/// A non-relation object held by the repository.
#[derive(Debug, Clone, Copy, PartialEq, Eq, Structural)]
pub enum ObjectTag {
    /// One commit-log page.
    Clog(SlruPage),
    /// One multixact members page.
    MultiXactMembers(SlruPage),
    /// One multixact offsets page.
    MultiXactOffsets(SlruPage),
    /// A database's file-node map.
    FileNodeMap(DatabaseTag),
    /// The state blob of one prepared transaction.
    TwoPhase(PrepareTag),
    /// The most recent checkpoint record.
    Checkpoint,
    /// The control file image.
    ControlFile,
}

/// The repository capability this core reads from: implemented by the
/// caller, so nothing is promised of what it returns. Reads at a fixed
/// position must not block waiting for background work; when an object is
/// not resident they fail instead.
pub trait Timeline {
    /// The ordered non-relation objects present as of `lsn`.
    fn list_nonrels(&self, lsn: Lsn) -> Result<Vec<ObjectTag>, String>;

    /// The byte image of `tag` as of `lsn`; fails if the object does not
    /// exist or is not resident.
    fn get_page_at_lsn_nowait(&self, tag: ObjectTag, lsn: Lsn) -> Result<Vec<u8>, String>;
}

/// Mode bits every archive entry carries: owner read and write.
pub const ENTRY_MODE: u32 = 0b110000000;

/// Where the archive stands: the phases must be passed in order and none
/// may be re-entered.
#[derive(Debug, Clone, Copy, PartialEq, Eq, Structural)]
pub enum Phase {
    /// Snapshot files are being copied in.
    WalkingFiles,
    /// Repository objects are being drained.
    IteratingObjects,
    /// The accumulator is flushed; only the synthesized files may follow.
    Finalizing,
    /// The synthesized files are in; nothing more may be appended, and the
    /// stream only awaits its end-of-archive marker.
    Done,
}

/// The archive path of the shared file-node map.
pub open spec fn global_relmap_path() -> Seq<char> {
    "global/pg_filenode.map"@
}

/// The archive path of a database's file-node map.
pub open spec fn db_relmap_path(dbnode: u32) -> Seq<char> {
    "base/"@ + dec_str(dbnode as int) + "/pg_filenode.map"@
}

/// The archive path of a database's version marker file.
pub open spec fn db_version_path(dbnode: u32) -> Seq<char> {
    "base/"@ + dec_str(dbnode as int) + "/PG_VERSION"@
}

/// The archive path of one two-phase state file.
pub open spec fn twophase_path(xid: TransactionId) -> Seq<char> {
    "pg_twophase/"@ + hex_str_pad(xid as int, 8)
}

/// The archive path of the control file.
pub open spec fn control_file_path() -> Seq<char> {
    "global/pg_control"@
}

/// The number of the segment after the one holding `lsn`.
pub open spec fn new_segment_number(lsn: Lsn) -> int {
    lsn.0 as int / WAL_SEGMENT_SIZE as int + 1
}

/// The redo position the synthesized cluster starts from: the first byte
/// after the long page header of the next segment.
pub open spec fn new_redo_lsn(lsn: Lsn) -> int {
    new_segment_number(lsn) * WAL_SEGMENT_SIZE + SIZE_OF_XLOG_LONG_PHD
}

/// The archive path of the synthesized segment, under the canonical
/// write-ahead-log directory and named for the fixed placeholder timeline
/// and the next segment.
pub open spec fn wal_entry_path(lsn: Lsn) -> Seq<char> {
    "pg_wal/"@ + wal_file_name_chars(SYNTHESIZED_TIMELINE_ID, new_segment_number(lsn) as u64)
}

/// The synthesized checkpoint: the decoded checkpoint image with its redo
/// pointer moved to the next segment's start of data and its oldest active
/// transaction cleared to unknown.
pub open spec fn synthesized_checkpoint(cpb: Seq<u8>, lsn: Lsn) -> Checkpoint {
    Checkpoint {
        redo: new_redo_lsn(lsn) as u64,
        oldest_active_xid: 0,
        ..checkpoint_dec(cpb)
    }
}

/// The synthesized control file image: the system identifier kept, the
/// checkpoint pointer moved to the new redo position, the embedded copy
/// replaced by the synthesized checkpoint, everything else kept verbatim.
pub open spec fn synthesized_control_bytes(cfb: Seq<u8>, cpb: Seq<u8>, lsn: Lsn) -> Seq<u8> {
    u64_le(le64_at(cfb, 0)) + u64_le(new_redo_lsn(lsn) as u64) + checkpoint_enc(
        synthesized_checkpoint(cpb, lsn),
    ) + cfb.skip(CONTROL_FILE_PREFIX as int)
}

/// The synthesized segment image for the given control-file and checkpoint
/// images.
pub open spec fn synthesized_wal_bytes(cfb: Seq<u8>, cpb: Seq<u8>, lsn: Lsn) -> Seq<u8> {
    wal_segment_enc(synthesized_checkpoint(cpb, lsn), le64_at(cfb, 0))
}

/// The shared file-node map's path is a name the sink stores byte for byte.
pub proof fn lemma_global_relmap_path_name_ok()
    ensures
        tar_name_ok(global_relmap_path()),
{
    reveal_strlit("global/pg_filenode.map");
    let p = global_relmap_path();
    assert(p =~= seq![
        'g', 'l', 'o', 'b', 'a', 'l', '/', 'p', 'g', '_', 'f', 'i', 'l', 'e', 'n', 'o', 'd',
        'e', '.', 'm', 'a', 'p',
    ]);
    lemma_name_ok_from_chars(p);
}

/// The control file's path is a name the sink stores byte for byte.
pub proof fn lemma_control_path_name_ok()
    ensures
        tar_name_ok(control_file_path()),
{
    reveal_strlit("global/pg_control");
    let p = control_file_path();
    assert(p =~= seq![
        'g', 'l', 'o', 'b', 'a', 'l', '/', 'p', 'g', '_', 'c', 'o', 'n', 't', 'r', 'o', 'l',
    ]);
    lemma_name_ok_from_chars(p);
}

/// A two-phase state file's path is a name the sink stores byte for byte.
pub proof fn lemma_twophase_path_name_ok(xid: TransactionId)
    ensures
        tar_name_ok(twophase_path(xid)),
{
    reveal_strlit("pg_twophase/");
    let pre = "pg_twophase/"@;
    assert(pre =~= seq!['p', 'g', '_', 't', 'w', 'o', 'p', 'h', 'a', 's', 'e', '/']);
    lemma_sixteen_pow_8();
    lemma_hex_str_pad_props(xid as int, 8, 8);
    let hx = hex_str_pad(xid as int, 8);
    let p = twophase_path(xid);
    assert forall|k: int| 0 <= k < p.len() implies 32 <= (#[trigger] p[k]) as int <= 126 && p[k]
        != '.' && (p[k] == '/' ==> k == 11) by {
        if k < 12 {
            assert(p[k] == pre[k]);
        } else {
            assert(p[k] == hx[k - 12]);
            assert(is_digit_char(hx[k - 12]));
        }
    }
    assert(p[p.len() - 1] == hx[hx.len() - 1]);
    assert(is_digit_char(hx[hx.len() - 1]));
    lemma_name_ok_from_chars(p);
}

/// A database's version-marker path is a name the sink stores byte for
/// byte.
pub proof fn lemma_db_version_path_name_ok(dbnode: u32)
    ensures
        tar_name_ok(db_version_path(dbnode)),
{
    reveal_strlit("base/");
    reveal_strlit("/PG_VERSION");
    assert("base/"@ =~= seq!['b', 'a', 's', 'e', '/']);
    assert("/PG_VERSION"@ =~= seq!['/', 'P', 'G', '_', 'V', 'E', 'R', 'S', 'I', 'O', 'N']);
    lemma_ten_pow_10();
    lemma_dec_str_props(dbnode as int, 10);
    let dc = dec_str(dbnode as int);
    let dl = dc.len() as int;
    let p = db_version_path(dbnode);
    assert(p.len() == 5 + dl + 11);
    assert forall|k: int| 0 <= k < p.len() implies 32 <= (#[trigger] p[k]) as int <= 126 && p[k]
        != '.' && (p[k] == '/' ==> (k == 4 || k == 5 + dl)) by {
        if k < 5 {
            assert(p[k] == "base/"@[k]);
        } else if k < 5 + dl {
            assert(p[k] == dc[k - 5]);
            assert(is_digit_char(dc[k - 5]) && dc[k - 5] as int <= 57);
        } else {
            assert(p[k] == "/PG_VERSION"@[k - 5 - dl]);
        }
    }
    assert(p[0] == 'b');
    assert(p[p.len() - 1] == 'N');
    assert forall|k: int| 0 < k < p.len() implies !((#[trigger] p[k]) == '/' && p[k - 1] == '/')
        by {
        if p[k] == '/' {
            if k == 4 {
                assert(p[3] == 'e');
            } else {
                assert(k == 5 + dl);
                assert(p[k - 1] == dc[dl - 1]);
                assert(is_digit_char(dc[dl - 1]) && dc[dl - 1] as int <= 57);
            }
        }
    }
    lemma_name_ok_from_chars(p);
}

/// A database's file-node-map path is a name the sink stores byte for
/// byte.
pub proof fn lemma_db_relmap_path_name_ok(dbnode: u32)
    ensures
        tar_name_ok(db_relmap_path(dbnode)),
{
    reveal_strlit("base/");
    reveal_strlit("/pg_filenode.map");
    assert("base/"@ =~= seq!['b', 'a', 's', 'e', '/']);
    assert("/pg_filenode.map"@ =~= seq![
        '/', 'p', 'g', '_', 'f', 'i', 'l', 'e', 'n', 'o', 'd', 'e', '.', 'm', 'a', 'p',
    ]);
    lemma_ten_pow_10();
    lemma_dec_str_props(dbnode as int, 10);
    let dc = dec_str(dbnode as int);
    let dl = dc.len() as int;
    let p = db_relmap_path(dbnode);
    assert(p.len() == 5 + dl + 16);
    assert forall|k: int| 0 <= k < p.len() implies 32 <= (#[trigger] p[k]) as int <= 126 && (p[k]
        == '/' ==> (k == 4 || k == 5 + dl)) && (p[k] == '.' ==> k == 5 + dl + 12) by {
        if k < 5 {
            assert(p[k] == "base/"@[k]);
        } else if k < 5 + dl {
            assert(p[k] == dc[k - 5]);
            assert(is_digit_char(dc[k - 5]) && dc[k - 5] as int <= 57);
        } else {
            assert(p[k] == "/pg_filenode.map"@[k - 5 - dl]);
        }
    }
    assert(p[0] == 'b');
    assert(p[p.len() - 1] == 'p');
    assert(p[5 + dl + 11] == 'e');
    assert forall|k: int| 0 < k < p.len() implies !((#[trigger] p[k]) == '/' && p[k - 1] == '/')
        by {
        if p[k] == '/' {
            if k == 4 {
                assert(p[3] == 'e');
            } else {
                assert(k == 5 + dl);
                assert(p[k - 1] == dc[dl - 1]);
                assert(is_digit_char(dc[dl - 1]) && dc[dl - 1] as int <= 57);
            }
        }
    }
    lemma_name_ok_from_chars(p);
}

/// The synthesized segment's path is a name the sink stores byte for byte.
pub proof fn lemma_wal_path_name_ok(lsn: Lsn)
    requires
        lsn.0 + WAL_SEGMENT_SIZE + SIZE_OF_XLOG_LONG_PHD <= u64::MAX,
    ensures
        tar_name_ok(wal_entry_path(lsn)),
{
    reveal_strlit("pg_wal/");
    assert("pg_wal/"@ =~= seq!['p', 'g', '_', 'w', 'a', 'l', '/']);
    let segno = new_segment_number(lsn) as u64;
    lemma_sixteen_pow_16();
    lemma_hex_str_pad_props(SYNTHESIZED_TIMELINE_ID as int, 8, 16);
    lemma_hex_str_pad_props(segno as int / 256, 8, 16);
    lemma_hex_str_pad_props(segno as int % 256, 8, 16);
    let a = hex_str_pad(SYNTHESIZED_TIMELINE_ID as int, 8);
    let b = hex_str_pad(segno as int / 256, 8);
    let c = hex_str_pad(segno as int % 256, 8);
    let p = wal_entry_path(lsn);
    assert(p.len() == 7 + a.len() + b.len() + c.len());
    assert forall|k: int| 0 <= k < p.len() implies 32 <= (#[trigger] p[k]) as int <= 126 && p[k]
        != '.' && (p[k] == '/' ==> k == 6) by {
        if k < 7 {
            assert(p[k] == "pg_wal/"@[k]);
        } else if k < 7 + a.len() {
            assert(p[k] == a[k - 7]);
            assert(is_digit_char(a[k - 7]));
        } else if k < 7 + a.len() + b.len() {
            assert(p[k] == b[k - 7 - a.len()]);
            assert(is_digit_char(b[k - 7 - a.len()]));
        } else {
            assert(p[k] == c[k - 7 - a.len() - b.len()]);
            assert(is_digit_char(c[k - 7 - a.len() - b.len()]));
        }
    }
    assert(p[p.len() - 1] == c[c.len() - 1]);
    assert(is_digit_char(c[c.len() - 1]));
    lemma_name_ok_from_chars(p);
}

/// One step of the SLRU route: how one page, with the image fetched for
/// it, transforms the resident segment and the archive entries.
pub open spec fn slru_step(
    category: SlruCategory,
    page: u32,
    img: Seq<u8>,
    cur: Option<(SlruCategory, u32)>,
    buf: Seq<u8>,
    entries: Seq<(Seq<char>, bool, Seq<u8>)>,
) -> (Option<(SlruCategory, u32)>, Seq<u8>, Seq<(Seq<char>, bool, Seq<u8>)>) {
    if img.len() == 0 {
        (cur, buf, entries)
    } else {
        let segno = page / 32;
        match cur {
            None => (Some((category, segno)), write_page(buf, page, img), entries),
            Some((c, s)) => {
                if c == category && s == segno {
                    (Some((category, segno)), write_page(buf, page, img), entries)
                } else {
                    (
                        Some((category, segno)),
                        write_page(zero_bytes(SLRU_SEG_SIZE as nat), page, img),
                        entries.push((slru_entry_path(c, s), false, buf)),
                    )
                }
            },
        }
    }
}

/// What the image fetched for one listed tag must look like for the run
/// to go through: SLRU pages are empty or one page long; file-node maps
/// are one map long, name a supported tablespace, and a per-database map
/// needs the version marker at hand.
pub open spec fn object_image_ok(tag: ObjectTag, img: Seq<u8>, vf: Option<Vec<u8>>) -> bool {
    match tag {
        ObjectTag::Clog(_) => img.len() == 0 || img.len() == BLCKSZ,
        ObjectTag::MultiXactMembers(_) => img.len() == 0 || img.len() == BLCKSZ,
        ObjectTag::MultiXactOffsets(_) => img.len() == 0 || img.len() == BLCKSZ,
        ObjectTag::FileNodeMap(db) => img.len() == RELMAP_FILE_SIZE && (db.spcnode
            == GLOBALTABLESPACE_OID || (db.spcnode == DEFAULTTABLESPACE_OID && vf is Some)),
        ObjectTag::TwoPhase(_) => true,
        ObjectTag::Checkpoint => true,
        ObjectTag::ControlFile => true,
    }
}

/// One step of an object run: how one listed tag, with the image fetched
/// for it, transforms the accumulator state and the archive entries. Tags
/// this core does not recognize change nothing.
pub open spec fn object_step(
    tag: ObjectTag,
    img: Seq<u8>,
    cur: Option<(SlruCategory, u32)>,
    buf: Seq<u8>,
    entries: Seq<(Seq<char>, bool, Seq<u8>)>,
    vf: Option<Vec<u8>>,
) -> (Option<(SlruCategory, u32)>, Seq<u8>, Seq<(Seq<char>, bool, Seq<u8>)>) {
    match tag {
        ObjectTag::Clog(pg) => slru_step(SlruCategory::Clog, pg.blknum, img, cur, buf, entries),
        ObjectTag::MultiXactMembers(pg) => slru_step(
            SlruCategory::MultiXactMembers,
            pg.blknum,
            img,
            cur,
            buf,
            entries,
        ),
        ObjectTag::MultiXactOffsets(pg) => slru_step(
            SlruCategory::MultiXactOffsets,
            pg.blknum,
            img,
            cur,
            buf,
            entries,
        ),
        ObjectTag::FileNodeMap(db) => {
            if db.spcnode == GLOBALTABLESPACE_OID {
                (cur, buf, entries.push((global_relmap_path(), false, img)))
            } else {
                match vf {
                    Some(v) => (
                        cur,
                        buf,
                        entries.push((db_version_path(db.dbnode), false, v@)).push(
                            (db_relmap_path(db.dbnode), false, img),
                        ),
                    ),
                    None => (cur, buf, entries),
                }
            }
        },
        ObjectTag::TwoPhase(prepare) => (
            cur,
            buf,
            entries.push((twophase_path(prepare.xid), false, img + u32_le(crc32c_extend(0, img)))),
        ),
        ObjectTag::Checkpoint => (cur, buf, entries),
        ObjectTag::ControlFile => (cur, buf, entries),
    }
}

/// Do the fetched images satisfy `object_image_ok` tag by tag?
pub open spec fn object_images_ok(
    tags: Seq<ObjectTag>,
    imgs: Seq<Seq<u8>>,
    vf: Option<Vec<u8>>,
) -> bool {
    imgs.len() == tags.len() && (forall|i: int|
        0 <= i < tags.len() ==> object_image_ok(#[trigger] tags[i], imgs[i], vf))
}

/// The whole object run: the tags consumed in order, each transforming the
/// accumulator state and the entries by `object_step` with its image.
pub open spec fn objects_fold(
    tags: Seq<ObjectTag>,
    imgs: Seq<Seq<u8>>,
    cur: Option<(SlruCategory, u32)>,
    buf: Seq<u8>,
    entries: Seq<(Seq<char>, bool, Seq<u8>)>,
    vf: Option<Vec<u8>>,
) -> (Option<(SlruCategory, u32)>, Seq<u8>, Seq<(Seq<char>, bool, Seq<u8>)>)
    decreases tags.len(),
{
    if tags.len() == 0 {
        (cur, buf, entries)
    } else {
        let prev = objects_fold(tags.drop_last(), imgs.drop_last(), cur, buf, entries, vf);
        object_step(tags.last(), imgs.last(), prev.0, prev.1, prev.2, vf)
    }
}

/// Law: for any target position, the redo position stands in both the
/// synthesized checkpoint and the control file's checkpoint pointer, and it
/// is the start of data of the segment after the one holding the position;
/// the embedded checkpoint copy in the control file is the synthesized
/// checkpoint itself.
pub proof fn lemma_synthesized_redo(cfb: Seq<u8>, cpb: Seq<u8>, lsn: Lsn)
    requires
        lsn.0 + WAL_SEGMENT_SIZE + SIZE_OF_XLOG_LONG_PHD <= u64::MAX,
    ensures
        synthesized_checkpoint(cpb, lsn).redo == new_redo_lsn(lsn),
        synthesized_checkpoint(cpb, lsn).oldest_active_xid == 0,
        synthesized_control_bytes(cfb, cpb, lsn).subrange(8, 16) == u64_le(
            new_redo_lsn(lsn) as u64,
        ),
        synthesized_control_bytes(cfb, cpb, lsn).subrange(16, 89) == checkpoint_enc(
            synthesized_checkpoint(cpb, lsn),
        ),
        new_redo_lsn(lsn) == new_segment_number(lsn) * WAL_SEGMENT_SIZE + SIZE_OF_XLOG_LONG_PHD,
{
    let s = WAL_SEGMENT_SIZE as int;
    let q = lsn.0 as int / s;
    vstd::arithmetic::div_mod::lemma_fundamental_div_mod(lsn.0 as int, s);
    vstd::arithmetic::div_mod::lemma_mod_bound(lsn.0 as int, s);
    assert((q + 1) * s == s * q + s) by (nonlinear_arith);
    assert(new_redo_lsn(lsn) <= u64::MAX);
    let cb = synthesized_control_bytes(cfb, cpb, lsn);
    assert(cb.subrange(8, 16) =~= u64_le(new_redo_lsn(lsn) as u64));
    assert(cb.subrange(16, 89) =~= checkpoint_enc(synthesized_checkpoint(cpb, lsn)));
}

/// The re-encoded control file, with its pointer and embedded copy
/// replaced and its tail kept, is exactly the synthesized image.
proof fn lemma_control_bytes_match(cf: ControlFile, cfb: Seq<u8>, cpb: Seq<u8>, lsn: Lsn)
    requires
        cf.system_identifier == le64_at(cfb, 0),
        cf.check_point == new_redo_lsn(lsn) as u64,
        cf.checkpoint_copy == synthesized_checkpoint(cpb, lsn),
        cf.tail@ == cfb.skip(CONTROL_FILE_PREFIX as int),
    ensures
        crate::checkpoint::control_file_enc(cf) == synthesized_control_bytes(cfb, cpb, lsn),
{
    assert(crate::checkpoint::control_file_enc(cf) =~= synthesized_control_bytes(cfb, cpb, lsn));
}

/// A prefix of a prefix is a prefix.
proof fn lemma_prefix_trans(a: Seq<(Seq<char>, bool, Seq<u8>)>, b: Seq<(Seq<char>, bool, Seq<u8>)>, c: Seq<(Seq<char>, bool, Seq<u8>)>)
    requires
        a.is_prefix_of(b),
        b.is_prefix_of(c),
    ensures
        a.is_prefix_of(c),
{
    assert(a =~= c.subrange(0, a.len() as int));
}

/// Appends the little-endian CRC-32C of the image to the image: the
/// payload of one two-phase state entry.
pub fn twophase_image(img: &Vec<u8>) -> (out: Vec<u8>)
    ensures
        out@ == img@ + u32_le(crc32c_extend(0, img@)),
{
    let mut out: Vec<u8> = Vec::new();
    out.extend_from_slice(img.as_slice());
    let crc = crc32c_of(img.as_slice());
    crate::bytes_le::push_u32_le(&mut out, crc);
    proof {
        assert(out@ =~= img@ + u32_le(crc32c_extend(0, img@)));
    }
    out
}

/// One archive generation in progress.
///
/// The tar stream is built in memory and handed out whole by `finish`; a
/// caller that must bound memory can drain the repository in smaller runs,
/// but this generation itself holds the archive until it is closed.
pub struct Basebackup {
    /// The tar stream being written.
    pub ar: TarSink,
    /// The position the archive is generated as of.
    pub lsn: Lsn,
    /// Modification timestamp stamped on every entry (seconds); present
    /// only for well-formedness, not semantically significant.
    pub mtime: u64,
    /// The snapshot's version marker file, copied beside each
    /// per-database file-node map; `None` when the snapshot has none.
    pub version_file: Option<Vec<u8>>,
    /// The SLRU segment accumulator.
    pub slru: SlruAccumulator,
    /// Which phase the generation stands in.
    pub phase: Phase,
}

impl Basebackup {
    /// The entries appended to the archive so far.
    pub open spec fn entries(self) -> Seq<(Seq<char>, bool, Seq<u8>)> {
        tar_entries(self.ar)
    }

    /// The accumulator buffer is intact and the target position leaves
    /// room for one more segment.
    pub open spec fn wf(self) -> bool {
        self.slru.wf() && self.lsn.0 + WAL_SEGMENT_SIZE + SIZE_OF_XLOG_LONG_PHD <= u64::MAX
    }

    /// What every mutating step leaves untouched.
    pub open spec fn same_run(self, other: Basebackup) -> bool {
        self.lsn == other.lsn && self.mtime == other.mtime && self.version_file
            == other.version_file
    }

    /// Starts a new archive generation as of `lsn`.
    pub fn new(lsn: Lsn, mtime: u64, version_file: Option<Vec<u8>>) -> (bb: Basebackup)
        requires
            lsn.0 + WAL_SEGMENT_SIZE + SIZE_OF_XLOG_LONG_PHD <= u64::MAX,
        ensures
            bb.wf(),
            bb.entries() == Seq::<(Seq<char>, bool, Seq<u8>)>::empty(),
            bb.phase == Phase::WalkingFiles,
            bb.lsn == lsn,
            bb.mtime == mtime,
            bb.version_file == version_file,
            bb.slru.cur is None,
            bb.slru.buf@ == zero_bytes(SLRU_SEG_SIZE as nat),
    {
        Basebackup {
            ar: tar_new(),
            lsn,
            mtime,
            version_file,
            slru: SlruAccumulator::new(),
            phase: Phase::WalkingFiles,
        }
    }

    /// Mirrors one snapshot directory as an archive directory entry. A
    /// name the archive header cannot store byte for byte is refused.
    pub fn add_dir_entry(&mut self, relpath: &str, mode: u32) -> (r: Result<(), BasebackupError>)
        requires
            old(self).wf(),
            old(self).phase == Phase::WalkingFiles,
        ensures
            final(self).wf(),
            old(self).same_run(*final(self)),
            final(self).phase == old(self).phase,
            final(self).slru == old(self).slru,
            r is Ok <==> tar_name_ok(relpath@),
            r is Ok ==> final(self).entries() == old(self).entries().push(
                (relpath@, true, Seq::<u8>::empty()),
            ),
            r is Err ==> final(self).entries() == old(self).entries() && r == Err::<
                (),
                BasebackupError,
            >(BasebackupError::InvalidPath),
    {
        if !is_tar_name_ok(relpath) {
            return Err(BasebackupError::InvalidPath);
        }
        let mtime = self.mtime;
        tar_append_dir(&mut self.ar, relpath, mode, mtime)
    }

    /// Offers one regular snapshot file for verbatim copy, with its
    /// on-disk mode bits. Files under the shared tablespace always go in;
    /// files under the non-default-tablespace directory, relation data
    /// files and the files reconstructed from the repository are skipped.
    pub fn add_snapshot_file(&mut self, relpath: &str, mode: u32, data: &Vec<u8>) -> (r: Result<
        (),
        BasebackupError,
    >)
        requires
            old(self).wf(),
            old(self).phase == Phase::WalkingFiles,
        ensures
            final(self).wf(),
            old(self).same_run(*final(self)),
            final(self).phase == old(self).phase,
            final(self).slru == old(self).slru,
            r is Ok <==> (!copied_verbatim(relpath.spec_bytes()) || tar_name_ok(relpath@)),
            r is Ok ==> final(self).entries() == if copied_verbatim(relpath.spec_bytes()) {
                old(self).entries().push((relpath@, false, data@))
            } else {
                old(self).entries()
            },
            r is Err ==> final(self).entries() == old(self).entries() && r == Err::<
                (),
                BasebackupError,
            >(BasebackupError::InvalidPath),
    {
        if is_copied_verbatim(relpath) {
            if !is_tar_name_ok(relpath) {
                return Err(BasebackupError::InvalidPath);
            }
            let mtime = self.mtime;
            tar_append_file(&mut self.ar, relpath, mode, mtime, data.as_slice())
        } else {
            Ok(())
        }
    }

    /// Leaves the file-walking phase: from here on only repository objects
    /// are accepted.
    pub fn begin_objects(&mut self)
        requires
            old(self).wf(),
            old(self).phase == Phase::WalkingFiles,
        ensures
            final(self).wf(),
            old(self).same_run(*final(self)),
            final(self).phase == Phase::IteratingObjects,
            final(self).entries() == old(self).entries(),
            final(self).slru == old(self).slru,
    {
        self.phase = Phase::IteratingObjects;
    }

    /// Routes one SLRU page of `tag` through the accumulator; when the
    /// page opens a different segment, the finished one is appended as
    /// exactly one archive entry first.
    pub fn add_slru_segment<T: Timeline>(
        &mut self,
        timeline: &T,
        category: SlruCategory,
        tag: ObjectTag,
        page: u32,
    ) -> (r: Result<(), BasebackupError>)
        requires
            old(self).wf(),
            old(self).phase == Phase::IteratingObjects,
        ensures
            final(self).wf(),
            old(self).same_run(*final(self)),
            final(self).phase == old(self).phase,
            old(self).entries().is_prefix_of(final(self).entries()),
            r matches Err(e) ==> (e is Repository || e is BadSlruPageSize),
            r is Err ==> final(self).slru == old(self).slru && final(self).entries() == old(
                self,
            ).entries(),
            r is Ok ==> exists|img: Seq<u8>|
                #![auto]
                (img.len() == 0 || img.len() == BLCKSZ) && (
                final(self).slru.cur,
                final(self).slru.buf@,
                final(self).entries(),
                ) == slru_step(
                    category,
                    page,
                    img,
                    old(self).slru.cur,
                    old(self).slru.buf@,
                    old(self).entries(),
                ),
    {
        let img = match timeline.get_page_at_lsn_nowait(tag, self.lsn) {
            Ok(img) => img,
            Err(m) => {
                return Err(BasebackupError::Repository(m));
            },
        };
        let flushed = match self.slru.add(category, page, &img) {
            Ok(f) => f,
            Err(e) => {
                return Err(e);
            },
        };
        match flushed {
            None => Ok(()),
            Some((path, data)) => {
                proof {
                    match old(self).slru.cur {
                        Some((c, sg)) => {
                            lemma_slru_path_name_ok(c, sg);
                        },
                        None => {},
                    }
                }
                let mtime = self.mtime;
                match tar_append_file(
                    &mut self.ar,
                    path.as_str(),
                    ENTRY_MODE,
                    mtime,
                    data.as_slice(),
                ) {
                    Ok(()) => Ok(()),
                    Err(e) => Err(e),
                }
            },
        }
    }

    /// Flushes the still-buffered segment, if any, as one archive entry.
    /// Enters the finalizing phase; with nothing buffered, nothing is
    /// appended.
    pub fn finish_slru_segment(&mut self) -> (r: Result<(), BasebackupError>)
        requires
            old(self).wf(),
            old(self).phase == Phase::IteratingObjects,
        ensures
            final(self).wf(),
            old(self).same_run(*final(self)),
            r is Ok,
            final(self).phase == Phase::Finalizing,
            final(self).slru.cur is None,
            old(self).entries().is_prefix_of(final(self).entries()),
            r is Ok ==> match old(self).slru.cur {
                None => final(self).entries() == old(self).entries(),
                Some((c, s)) => final(self).entries() == old(self).entries().push(
                    (slru_entry_path(c, s), false, old(self).slru.buf@),
                ),
            },
    {
        let flushed = self.slru.finish();
        match flushed {
            None => {
                self.phase = Phase::Finalizing;
                Ok(())
            },
            Some((path, data)) => {
                proof {
                    match old(self).slru.cur {
                        Some((c, sg)) => {
                            lemma_slru_path_name_ok(c, sg);
                        },
                        None => {},
                    }
                }
                let mtime = self.mtime;
                match tar_append_file(
                    &mut self.ar,
                    path.as_str(),
                    ENTRY_MODE,
                    mtime,
                    data.as_slice(),
                ) {
                    Ok(()) => {
                        self.phase = Phase::Finalizing;
                        Ok(())
                    },
                    Err(e) => Err(e),
                }
            },
        }
    }

    /// Writes a database's file-node map: at the fixed shared path for the
    /// shared tablespace; for the default tablespace, the snapshot's
    /// version marker is copied beside a per-database map. Any other
    /// tablespace aborts the run.
    pub fn add_relmap_file<T: Timeline>(&mut self, timeline: &T, tag: ObjectTag, db: DatabaseTag)
        -> (r: Result<(), BasebackupError>)
        requires
            old(self).wf(),
            old(self).phase == Phase::IteratingObjects,
        ensures
            final(self).wf(),
            old(self).same_run(*final(self)),
            final(self).phase == old(self).phase,
            final(self).slru == old(self).slru,
            old(self).entries().is_prefix_of(final(self).entries()),
            r is Ok ==> db.spcnode == GLOBALTABLESPACE_OID || db.spcnode
                == DEFAULTTABLESPACE_OID,
            r matches Err(BasebackupError::UnsupportedTablespace(spc)) ==> spc == db.spcnode
                && db.spcnode != GLOBALTABLESPACE_OID && db.spcnode != DEFAULTTABLESPACE_OID,
            r == Err::<(), BasebackupError>(BasebackupError::MissingVersionFile) ==> db.spcnode
                == DEFAULTTABLESPACE_OID && old(self).version_file is None,
            r matches Err(e) ==> (e is Repository || e is BadRelmapSize || e
                is UnsupportedTablespace || e is MissingVersionFile),
            r matches Err(e) && (e is Repository || e is UnsupportedTablespace || e
                is MissingVersionFile) ==> final(self).entries() == old(self).entries(),
            r is Ok ==> exists|img: Seq<u8>|
                #![auto]
                object_image_ok(ObjectTag::FileNodeMap(db), img, old(self).version_file) && (
                final(self).slru.cur,
                final(self).slru.buf@,
                final(self).entries(),
                ) == object_step(
                    ObjectTag::FileNodeMap(db),
                    img,
                    old(self).slru.cur,
                    old(self).slru.buf@,
                    old(self).entries(),
                    old(self).version_file,
                ),
    {
        let img = match timeline.get_page_at_lsn_nowait(tag, self.lsn) {
            Ok(img) => img,
            Err(m) => {
                return Err(BasebackupError::Repository(m));
            },
        };
        let mtime = self.mtime;
        if db.spcnode == GLOBALTABLESPACE_OID {
            if img.len() != RELMAP_FILE_SIZE {
                return Err(BasebackupError::BadRelmapSize(img.len()));
            }
            let path = String::from_str("global/pg_filenode.map");
            proof {
                lemma_global_relmap_path_name_ok();
            }
            match tar_append_file(&mut self.ar, path.as_str(), ENTRY_MODE, mtime, img.as_slice()) {
                Ok(()) => {
                    proof {
                        assert(object_image_ok(
                            ObjectTag::FileNodeMap(db),
                            img@,
                            old(self).version_file,
                        ));
                        assert((self.slru.cur, self.slru.buf@, self.entries()) == object_step(
                            ObjectTag::FileNodeMap(db),
                            img@,
                            old(self).slru.cur,
                            old(self).slru.buf@,
                            old(self).entries(),
                            old(self).version_file,
                        ));
                    }
                    Ok(())
                },
                Err(e) => Err(e),
            }
        } else if db.spcnode == DEFAULTTABLESPACE_OID {
            // The version marker copied from the snapshot's base template.
            let version: Vec<u8> = match &self.version_file {
                Some(v) => vstd::slice::slice_to_vec(v.as_slice()),
                None => {
                    return Err(BasebackupError::MissingVersionFile);
                },
            };
            let mut vpath = String::from_str("base/");
            push_dec(&mut vpath, db.dbnode);
            vpath.append("/PG_VERSION");
            proof {
                lemma_db_version_path_name_ok(db.dbnode);
            }
            let vslice = version.as_slice();
            match tar_append_file(&mut self.ar, vpath.as_str(), ENTRY_MODE, mtime, vslice) {
                Ok(()) => (),
                Err(e) => {
                    return Err(e);
                },
            }
            if img.len() != RELMAP_FILE_SIZE {
                return Err(BasebackupError::BadRelmapSize(img.len()));
            }
            let mut mpath = String::from_str("base/");
            push_dec(&mut mpath, db.dbnode);
            mpath.append("/pg_filenode.map");
            proof {
                lemma_db_relmap_path_name_ok(db.dbnode);
            }
            match tar_append_file(&mut self.ar, mpath.as_str(), ENTRY_MODE, mtime, img.as_slice())
            {
                Ok(()) => {
                    proof {
                        assert(object_image_ok(
                            ObjectTag::FileNodeMap(db),
                            img@,
                            old(self).version_file,
                        ));
                        assert((self.slru.cur, self.slru.buf@, self.entries()) == object_step(
                            ObjectTag::FileNodeMap(db),
                            img@,
                            old(self).slru.cur,
                            old(self).slru.buf@,
                            old(self).entries(),
                            old(self).version_file,
                        ));
                    }
                    Ok(())
                },
                Err(e) => Err(e),
            }
        } else {
            // Non-default tablespaces are not supported.
            Err(BasebackupError::UnsupportedTablespace(db.spcnode))
        }
    }

    /// Writes one two-phase state file: the raw image with its CRC-32C
    /// appended little-endian, at a path named by the transaction id as
    /// eight uppercase hex digits.
    pub fn add_twophase_file<T: Timeline>(
        &mut self,
        timeline: &T,
        tag: ObjectTag,
        xid: TransactionId,
    ) -> (r: Result<(), BasebackupError>)
        requires
            old(self).wf(),
            old(self).phase == Phase::IteratingObjects,
        ensures
            final(self).wf(),
            old(self).same_run(*final(self)),
            final(self).phase == old(self).phase,
            final(self).slru == old(self).slru,
            old(self).entries().is_prefix_of(final(self).entries()),
            r matches Err(e) ==> e is Repository,
            r is Err ==> final(self).entries() == old(self).entries(),
            r is Ok ==> exists|img: Seq<u8>|
                #![auto]
                (final(self).slru.cur, final(self).slru.buf@, final(self).entries())
                    == object_step(
                    ObjectTag::TwoPhase(PrepareTag { xid }),
                    img,
                    old(self).slru.cur,
                    old(self).slru.buf@,
                    old(self).entries(),
                    old(self).version_file,
                ),
    {
        let img = match timeline.get_page_at_lsn_nowait(tag, self.lsn) {
            Ok(img) => img,
            Err(m) => {
                return Err(BasebackupError::Repository(m));
            },
        };
        let payload = twophase_image(&img);
        let mut path = String::from_str("pg_twophase/");
        push_hex_pad(&mut path, xid as u64, 8);
        proof {
            lemma_twophase_path_name_ok(xid);
        }
        let mtime = self.mtime;
        match tar_append_file(&mut self.ar, path.as_str(), ENTRY_MODE, mtime, payload.as_slice()) {
            Ok(()) => {
                proof {
                    assert((self.slru.cur, self.slru.buf@, self.entries()) == object_step(
                        ObjectTag::TwoPhase(PrepareTag { xid }),
                        img@,
                        old(self).slru.cur,
                        old(self).slru.buf@,
                        old(self).entries(),
                        old(self).version_file,
                    ));
                }
                Ok(())
            },
            Err(e) => Err(e),
        }
    }

    /// Synthesizes and appends the control file and the one write-ahead-log
    /// segment that make the snapshot bootable: the redo pointer of both
    /// the checkpoint copy and the control file moves to the start of data
    /// of the segment after the target position, the oldest active
    /// transaction is cleared, and the segment carries a single shutdown
    /// checkpoint record. On success nothing more may be appended: the
    /// archive only remains to be closed.
    #[verifier::rlimit(100)]
    pub fn add_pgcontrol_file<T: Timeline>(&mut self, timeline: &T) -> (r: Result<
        (),
        BasebackupError,
    >)
        requires
            old(self).wf(),
            old(self).phase == Phase::Finalizing,
        ensures
            final(self).wf(),
            old(self).same_run(*final(self)),
            r is Ok ==> final(self).phase == Phase::Done,
            old(self).entries().is_prefix_of(final(self).entries()),
            r matches Err(e) ==> (e is Repository || e is BadCheckpoint || e is BadControlFile
                || e is Archive),
            r matches Err(e) ==> (e is Repository || e is BadCheckpoint || e is BadControlFile),
            r is Err ==> final(self).entries() == old(self).entries(),
            r is Ok ==> exists|cfb: Seq<u8>, cpb: Seq<u8>|
                #![auto]
                {
                    &&& cpb.len() == CHECKPOINT_BYTES
                    &&& cfb.len() >= CONTROL_FILE_PREFIX
                    &&& final(self).entries() == old(self).entries().push(
                        (
                            control_file_path(),
                            false,
                            synthesized_control_bytes(cfb, cpb, old(self).lsn),
                        ),
                    ).push(
                        (
                            wal_entry_path(old(self).lsn),
                            false,
                            synthesized_wal_bytes(cfb, cpb, old(self).lsn),
                        ),
                    )
                },
    {
        // The sentinel tags are addressed by a fixed position: always the
        // latest known images, not the target position.
        let most_recent_lsn = Lsn(0);
        let checkpoint_bytes = match timeline.get_page_at_lsn_nowait(
            ObjectTag::Checkpoint,
            most_recent_lsn,
        ) {
            Ok(b) => b,
            Err(m) => {
                return Err(BasebackupError::Repository(m));
            },
        };
        let pg_control_bytes = match timeline.get_page_at_lsn_nowait(
            ObjectTag::ControlFile,
            most_recent_lsn,
        ) {
            Ok(b) => b,
            Err(m) => {
                return Err(BasebackupError::Repository(m));
            },
        };
        let mut pg_control = match decode_pg_control(&pg_control_bytes) {
            Ok(cf) => cf,
            Err(e) => {
                return Err(e);
            },
        };
        let mut checkpoint = match decode_checkpoint(&checkpoint_bytes) {
            Ok(c) => c,
            Err(e) => {
                return Err(e);
            },
        };
        let (new_segno, new_lsn) = next_segment_redo(self.lsn);
        checkpoint.redo = new_lsn;
        // Reset the transaction horizon: unknown after the synthesized
        // shutdown.
        checkpoint.oldest_active_xid = 0;
        proof {
            assert(checkpoint == synthesized_checkpoint(checkpoint_bytes@, self.lsn));
        }
        pg_control.check_point = new_lsn;
        pg_control.checkpoint_copy = checkpoint;
        let out = encode_pg_control(&pg_control);
        let ghost cfb = pg_control_bytes@;
        let ghost cpb = checkpoint_bytes@;
        proof {
            lemma_control_bytes_match(pg_control, cfb, cpb, self.lsn);
        }
        let mtime = self.mtime;
        let cpath = String::from_str("global/pg_control");
        proof {
            lemma_control_path_name_ok();
        }
        match tar_append_file(&mut self.ar, cpath.as_str(), ENTRY_MODE, mtime, out.as_slice()) {
            Ok(()) => (),
            Err(e) => {
                return Err(e);
            },
        }
        let name = wal_file_name(SYNTHESIZED_TIMELINE_ID, new_segno);
        let mut wpath = String::from_str("pg_wal/");
        wpath.append(name.as_str());
        let seg = generate_wal_segment(&checkpoint, pg_control.system_identifier);
        proof {
            assert(wpath@ == wal_entry_path(self.lsn));
            assert(seg@ == synthesized_wal_bytes(cfb, cpb, self.lsn));
            lemma_wal_path_name_ok(self.lsn);
        }
        match tar_append_file(&mut self.ar, wpath.as_str(), ENTRY_MODE, mtime, seg.as_slice()) {
            Ok(()) => {
                self.phase = Phase::Done;
                proof {
                    assert(self.entries() == old(self).entries().push(
                        (
                            control_file_path(),
                            false,
                            synthesized_control_bytes(cfb, cpb, old(self).lsn),
                        ),
                    ).push(
                        (
                            wal_entry_path(old(self).lsn),
                            false,
                            synthesized_wal_bytes(cfb, cpb, old(self).lsn),
                        ),
                    ));
                }
                Ok(())
            },
            Err(e) => Err(e),
        }
    }

    /// Closes the archive and hands back its bytes. Nothing can be
    /// appended afterwards: the generation is consumed.
    pub fn finish(self) -> (r: Result<Vec<u8>, BasebackupError>)
        requires
            self.phase == Phase::Done,
        ensures
            r is Ok,
            r matches Ok(b) ==> b@ == tar_stream_bytes(self.ar),
    {
        tar_finish(self.ar)
    }

    /// Consumes one tag list, in order: SLRU pages through the
    /// accumulator, file-node maps and two-phase state through their
    /// encoders; tags this core does not recognize are ignored. On
    /// success the accumulator state and the archive entries are exactly
    /// the fold of the list, for some sequence of fetched images, each
    /// admissible for its tag.
    pub fn process_object_list<T: Timeline>(&mut self, timeline: &T, tags: &Vec<ObjectTag>) -> (r:
        Result<(), BasebackupError>)
        requires
            old(self).wf(),
            old(self).phase == Phase::IteratingObjects,
        ensures
            final(self).wf(),
            old(self).same_run(*final(self)),
            final(self).phase == Phase::IteratingObjects,
            old(self).entries().is_prefix_of(final(self).entries()),
            tags@.len() == 0 ==> r is Ok,
            r is Ok ==> exists|imgs: Seq<Seq<u8>>|
                #![auto]
                object_images_ok(tags@, imgs, old(self).version_file) && (
                final(self).slru.cur,
                final(self).slru.buf@,
                final(self).entries(),
                ) == objects_fold(
                    tags@,
                    imgs,
                    old(self).slru.cur,
                    old(self).slru.buf@,
                    old(self).entries(),
                    old(self).version_file,
                ),
    {
        let ghost start_cur = self.slru.cur;
        let ghost start_buf = self.slru.buf@;
        let ghost start = self.entries();
        let ghost vf = self.version_file;
        let ghost mut imgs: Seq<Seq<u8>> = Seq::empty();
        proof {
            assert(start.is_prefix_of(self.entries())) by {
                assert(start =~= self.entries().subrange(0, start.len() as int));
            }
            assert(tags@.take(0int) =~= Seq::<ObjectTag>::empty());
        }
        let mut i: usize = 0;
        let n = tags.len();
        while i < n
            invariant
                0 <= i <= n == tags@.len(),
                self.wf(),
                self.phase == Phase::IteratingObjects,
                old(self).same_run(*self),
                start_cur == old(self).slru.cur,
                start_buf == old(self).slru.buf@,
                start == old(self).entries(),
                vf == old(self).version_file,
                imgs.len() == i,
                object_images_ok(tags@.take(i as int), imgs, vf),
                (self.slru.cur, self.slru.buf@, self.entries()) == objects_fold(
                    tags@.take(i as int),
                    imgs,
                    start_cur,
                    start_buf,
                    start,
                    vf,
                ),
                start.is_prefix_of(self.entries()),
            decreases n - i,
        {
            let tag = tags[i];
            let ghost before_cur = self.slru.cur;
            let ghost before_buf = self.slru.buf@;
            let ghost before = self.entries();
            let step = match tag {
                ObjectTag::Clog(pg) => self.add_slru_segment(
                    timeline,
                    SlruCategory::Clog,
                    tag,
                    pg.blknum,
                ),
                ObjectTag::MultiXactMembers(pg) => self.add_slru_segment(
                    timeline,
                    SlruCategory::MultiXactMembers,
                    tag,
                    pg.blknum,
                ),
                ObjectTag::MultiXactOffsets(pg) => self.add_slru_segment(
                    timeline,
                    SlruCategory::MultiXactOffsets,
                    tag,
                    pg.blknum,
                ),
                ObjectTag::FileNodeMap(db) => self.add_relmap_file(timeline, tag, db),
                ObjectTag::TwoPhase(prepare) => self.add_twophase_file(timeline, tag, prepare.xid),
                _ => Ok(()),
            };
            proof {
                lemma_prefix_trans(start, before, self.entries());
            }
            match step {
                Ok(()) => (),
                Err(e) => {
                    return Err(e);
                },
            }
            proof {
                let img: Seq<u8> = match tag {
                    ObjectTag::Clog(pg) => choose|img: Seq<u8>|
                        #![auto]
                        (img.len() == 0 || img.len() == BLCKSZ) && (
                        self.slru.cur,
                        self.slru.buf@,
                        self.entries(),
                        ) == slru_step(SlruCategory::Clog, pg.blknum, img, before_cur, before_buf, before),
                    ObjectTag::MultiXactMembers(pg) => choose|img: Seq<u8>|
                        #![auto]
                        (img.len() == 0 || img.len() == BLCKSZ) && (
                        self.slru.cur,
                        self.slru.buf@,
                        self.entries(),
                        ) == slru_step(SlruCategory::MultiXactMembers, pg.blknum, img, before_cur, before_buf, before),
                    ObjectTag::MultiXactOffsets(pg) => choose|img: Seq<u8>|
                        #![auto]
                        (img.len() == 0 || img.len() == BLCKSZ) && (
                        self.slru.cur,
                        self.slru.buf@,
                        self.entries(),
                        ) == slru_step(SlruCategory::MultiXactOffsets, pg.blknum, img, before_cur, before_buf, before),
                    ObjectTag::FileNodeMap(db) => choose|img: Seq<u8>|
                        #![auto]
                        object_image_ok(ObjectTag::FileNodeMap(db), img, vf) && (
                        self.slru.cur,
                        self.slru.buf@,
                        self.entries(),
                        ) == object_step(ObjectTag::FileNodeMap(db), img, before_cur, before_buf, before, vf),
                    ObjectTag::TwoPhase(prepare) => choose|img: Seq<u8>|
                        #![auto]
                        (self.slru.cur, self.slru.buf@, self.entries()) == object_step(
                            ObjectTag::TwoPhase(PrepareTag { xid: prepare.xid }),
                            img,
                            before_cur,
                            before_buf,
                            before,
                            vf,
                        ),
                    _ => Seq::empty(),
                };
                assert(object_image_ok(tag, img, vf));
                assert((self.slru.cur, self.slru.buf@, self.entries()) == object_step(
                    tag,
                    img,
                    before_cur,
                    before_buf,
                    before,
                    vf,
                ));
                let prev_imgs = imgs;
                imgs = imgs.push(img);
                assert(tags@.take(i + 1).drop_last() =~= tags@.take(i as int));
                assert(imgs.drop_last() =~= prev_imgs);
                assert(tags@.take(i + 1).last() == tags@[i as int]);
                assert((self.slru.cur, self.slru.buf@, self.entries()) == objects_fold(
                    tags@.take(i + 1),
                    imgs,
                    start_cur,
                    start_buf,
                    start,
                    vf,
                ));
                assert(object_images_ok(tags@.take(i + 1), imgs, vf)) by {
                    assert(forall|k: int|
                        0 <= k < i ==> tags@.take(i + 1)[k] == #[trigger] tags@.take(i as int)[k]
                            && imgs[k] == prev_imgs[k]);
                    assert(forall|k: int| 0 <= k < i + 1 ==> object_image_ok(
                        #[trigger] tags@.take(i + 1)[k],
                        imgs[k],
                        vf,
                    ));
                }
            }
            i += 1;
        }
        proof {
            assert(tags@.take(n as int) =~= tags@);
            assert(object_images_ok(tags@, imgs, vf) && (
            self.slru.cur,
            self.slru.buf@,
            self.entries(),
            ) == objects_fold(tags@, imgs, start_cur, start_buf, start, vf));
        }
        Ok(())
    }

    /// Drains the repository's ordered non-relation objects into the
    /// archive, exactly once and in order. On success the accumulator
    /// state and the archive entries are the fold of the returned tag
    /// list; what the list and the page images are is the repository's to
    /// decide, so they stand existentially.
    pub fn process_objects<T: Timeline>(&mut self, timeline: &T) -> (r: Result<
        (),
        BasebackupError,
    >)
        requires
            old(self).wf(),
            old(self).phase == Phase::WalkingFiles,
        ensures
            final(self).wf(),
            old(self).same_run(*final(self)),
            final(self).phase == Phase::IteratingObjects,
            old(self).entries().is_prefix_of(final(self).entries()),
            r is Ok ==> exists|tags: Seq<ObjectTag>, imgs: Seq<Seq<u8>>|
                #![auto]
                object_images_ok(tags, imgs, old(self).version_file) && (
                final(self).slru.cur,
                final(self).slru.buf@,
                final(self).entries(),
                ) == objects_fold(
                    tags,
                    imgs,
                    old(self).slru.cur,
                    old(self).slru.buf@,
                    old(self).entries(),
                    old(self).version_file,
                ),
    {
        self.begin_objects();
        let lsn = self.lsn;
        let tags = match timeline.list_nonrels(lsn) {
            Ok(tags) => tags,
            Err(m) => {
                proof {
                    assert(old(self).entries().is_prefix_of(self.entries())) by {
                        assert(old(self).entries() =~= self.entries().subrange(
                            0,
                            old(self).entries().len() as int,
                        ));
                    }
                }
                return Err(BasebackupError::Repository(m));
            },
        };
        self.process_object_list(timeline, &tags)
    }
}

} // verus!
