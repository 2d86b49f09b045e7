//! The checkpoint record and the control file: structured forms, their
//! fixed little-endian encodings, and round-trip proofs.
//!
//! The byte layouts here — field order, widths, and the control file's
//! fixed prefix (identity, checkpoint pointer, embedded copy) followed by
//! a verbatim tail — are this codec's own choice: the repository stores
//! and hands back images in this same form, so only self-consistency is
//! required of them.

use vstd::prelude::*;
use crate::bytes_le::{
    le32_at, le64_at, lemma_le_to_u32_roundtrip, lemma_le_to_u64_roundtrip,
    lemma_u32_le_roundtrip, lemma_u64_le_roundtrip, push_u32_le, push_u64_le, read_u32_le,
    read_u64_le, u32_le, u64_le,
};
use crate::errors::BasebackupError;

verus! {

/// Encoded size of a checkpoint record in bytes.
pub const CHECKPOINT_BYTES: usize = 73;

/// Size of the control file's fixed-layout prefix: system identifier,
/// checkpoint pointer, and the embedded checkpoint copy.
pub const CONTROL_FILE_PREFIX: usize = 8 + 8 + 73;

/// A checkpoint record: the redo starting position and the transaction
/// and multixact horizon bookkeeping as of a consistent point.
#[derive(Debug, Clone, Copy, PartialEq, Eq, Structural)]
pub struct Checkpoint {
    /// Where replay must begin.
    pub redo: u64,
    /// Timeline of this checkpoint.
    pub this_timeline: u32,
    /// Timeline of the previous checkpoint.
    pub prev_timeline: u32,
    /// Whether full-page writes were on (one byte, zero or not).
    pub full_page_writes: u8,
    /// Next free transaction id, epoch included.
    pub next_xid: u64,
    /// Next free object id.
    pub next_oid: u32,
    /// Next free multixact id.
    pub next_multi: u32,
    /// Next free multixact offset.
    pub next_multi_offset: u32,
    /// Cluster-wide minimum datfrozenxid.
    pub oldest_xid: u32,
    /// Database with that minimum.
    pub oldest_xid_db: u32,
    /// Cluster-wide minimum datminmxid.
    pub oldest_multi: u32,
    /// Database with that minimum.
    pub oldest_multi_db: u32,
    /// Time stamp of the checkpoint.
    pub time: u64,
    /// Oldest transaction id with a commit timestamp.
    pub oldest_commit_ts_xid: u32,
    /// Newest transaction id with a commit timestamp.
    pub newest_commit_ts_xid: u32,
    /// Oldest transaction id running at checkpoint time; zero for unknown.
    pub oldest_active_xid: u32,
}

/// The fixed little-endian encoding of a checkpoint record.
pub open spec fn checkpoint_enc(c: Checkpoint) -> Seq<u8> {
    u64_le(c.redo) + u32_le(c.this_timeline) + u32_le(c.prev_timeline) + seq![c.full_page_writes]
        + u64_le(c.next_xid) + u32_le(c.next_oid) + u32_le(c.next_multi) + u32_le(
        c.next_multi_offset,
    ) + u32_le(c.oldest_xid) + u32_le(c.oldest_xid_db) + u32_le(c.oldest_multi) + u32_le(
        c.oldest_multi_db,
    ) + u64_le(c.time) + u32_le(c.oldest_commit_ts_xid) + u32_le(c.newest_commit_ts_xid) + u32_le(
        c.oldest_active_xid,
    )
}

/// The checkpoint record read back from its encoding.
pub open spec fn checkpoint_dec(b: Seq<u8>) -> Checkpoint {
    Checkpoint {
        redo: le64_at(b, 0),
        this_timeline: le32_at(b, 8),
        prev_timeline: le32_at(b, 12),
        full_page_writes: b[16],
        next_xid: le64_at(b, 17),
        next_oid: le32_at(b, 25),
        next_multi: le32_at(b, 29),
        next_multi_offset: le32_at(b, 33),
        oldest_xid: le32_at(b, 37),
        oldest_xid_db: le32_at(b, 41),
        oldest_multi: le32_at(b, 45),
        oldest_multi_db: le32_at(b, 49),
        time: le64_at(b, 53),
        oldest_commit_ts_xid: le32_at(b, 61),
        newest_commit_ts_xid: le32_at(b, 65),
        oldest_active_xid: le32_at(b, 69),
    }
}

/// Encodes a checkpoint record.
pub fn encode_checkpoint(c: &Checkpoint) -> (out: Vec<u8>)
    ensures
        out@ == checkpoint_enc(*c),
        out@.len() == CHECKPOINT_BYTES,
{
    let mut out: Vec<u8> = Vec::new();
    push_u64_le(&mut out, c.redo);
    push_u32_le(&mut out, c.this_timeline);
    push_u32_le(&mut out, c.prev_timeline);
    out.push(c.full_page_writes);
    push_u64_le(&mut out, c.next_xid);
    push_u32_le(&mut out, c.next_oid);
    push_u32_le(&mut out, c.next_multi);
    push_u32_le(&mut out, c.next_multi_offset);
    push_u32_le(&mut out, c.oldest_xid);
    push_u32_le(&mut out, c.oldest_xid_db);
    push_u32_le(&mut out, c.oldest_multi);
    push_u32_le(&mut out, c.oldest_multi_db);
    push_u64_le(&mut out, c.time);
    push_u32_le(&mut out, c.oldest_commit_ts_xid);
    push_u32_le(&mut out, c.newest_commit_ts_xid);
    push_u32_le(&mut out, c.oldest_active_xid);
    proof {
        assert(out@ =~= checkpoint_enc(*c));
    }
    out
}

/// Decodes a checkpoint record; only an image of exactly the encoded size
/// is accepted.
pub fn decode_checkpoint(b: &Vec<u8>) -> (r: Result<Checkpoint, BasebackupError>)
    ensures
        r is Ok <==> b@.len() == CHECKPOINT_BYTES,
        r matches Ok(c) ==> c == checkpoint_dec(b@),
        r is Err ==> r == Err::<Checkpoint, BasebackupError>(
            BasebackupError::BadCheckpoint(b@.len() as usize),
        ),
{
    if b.len() != CHECKPOINT_BYTES {
        return Err(BasebackupError::BadCheckpoint(b.len()));
    }
    let s = b.as_slice();
    Ok(
        Checkpoint {
            redo: read_u64_le(s, 0),
            this_timeline: read_u32_le(s, 8),
            prev_timeline: read_u32_le(s, 12),
            full_page_writes: s[16],
            next_xid: read_u64_le(s, 17),
            next_oid: read_u32_le(s, 25),
            next_multi: read_u32_le(s, 29),
            next_multi_offset: read_u32_le(s, 33),
            oldest_xid: read_u32_le(s, 37),
            oldest_xid_db: read_u32_le(s, 41),
            oldest_multi: read_u32_le(s, 45),
            oldest_multi_db: read_u32_le(s, 49),
            time: read_u64_le(s, 53),
            oldest_commit_ts_xid: read_u32_le(s, 61),
            newest_commit_ts_xid: read_u32_le(s, 65),
            oldest_active_xid: read_u32_le(s, 69),
        },
    )
}

/// Law: decoding an encoded checkpoint gives back the checkpoint.
pub proof fn lemma_checkpoint_roundtrip(c: Checkpoint)
    ensures
        checkpoint_dec(checkpoint_enc(c)) == c,
{
    let e = checkpoint_enc(c);
    assert(e.subrange(0, 8) =~= u64_le(c.redo));
    assert(e.subrange(8, 12) =~= u32_le(c.this_timeline));
    assert(e.subrange(12, 16) =~= u32_le(c.prev_timeline));
    assert(e[16] == c.full_page_writes);
    assert(e.subrange(17, 25) =~= u64_le(c.next_xid));
    assert(e.subrange(25, 29) =~= u32_le(c.next_oid));
    assert(e.subrange(29, 33) =~= u32_le(c.next_multi));
    assert(e.subrange(33, 37) =~= u32_le(c.next_multi_offset));
    assert(e.subrange(37, 41) =~= u32_le(c.oldest_xid));
    assert(e.subrange(41, 45) =~= u32_le(c.oldest_xid_db));
    assert(e.subrange(45, 49) =~= u32_le(c.oldest_multi));
    assert(e.subrange(49, 53) =~= u32_le(c.oldest_multi_db));
    assert(e.subrange(53, 61) =~= u64_le(c.time));
    assert(e.subrange(61, 65) =~= u32_le(c.oldest_commit_ts_xid));
    assert(e.subrange(65, 69) =~= u32_le(c.newest_commit_ts_xid));
    assert(e.subrange(69, 73) =~= u32_le(c.oldest_active_xid));
    lemma_u64_le_roundtrip(c.redo);
    lemma_u32_le_roundtrip(c.this_timeline);
    lemma_u32_le_roundtrip(c.prev_timeline);
    lemma_u64_le_roundtrip(c.next_xid);
    lemma_u32_le_roundtrip(c.next_oid);
    lemma_u32_le_roundtrip(c.next_multi);
    lemma_u32_le_roundtrip(c.next_multi_offset);
    lemma_u32_le_roundtrip(c.oldest_xid);
    lemma_u32_le_roundtrip(c.oldest_xid_db);
    lemma_u32_le_roundtrip(c.oldest_multi);
    lemma_u32_le_roundtrip(c.oldest_multi_db);
    lemma_u64_le_roundtrip(c.time);
    lemma_u32_le_roundtrip(c.oldest_commit_ts_xid);
    lemma_u32_le_roundtrip(c.newest_commit_ts_xid);
    lemma_u32_le_roundtrip(c.oldest_active_xid);
}

/// Law: re-encoding a decoded checkpoint image gives back the bytes.
pub proof fn lemma_checkpoint_bytes_roundtrip(b: Seq<u8>)
    requires
        b.len() == CHECKPOINT_BYTES,
    ensures
        checkpoint_enc(checkpoint_dec(b)) == b,
{
    lemma_le_to_u64_roundtrip(b[0], b[1], b[2], b[3], b[4], b[5], b[6], b[7]);
    lemma_le_to_u32_roundtrip(b[8], b[9], b[10], b[11]);
    lemma_le_to_u32_roundtrip(b[12], b[13], b[14], b[15]);
    lemma_le_to_u64_roundtrip(b[17], b[18], b[19], b[20], b[21], b[22], b[23], b[24]);
    lemma_le_to_u32_roundtrip(b[25], b[26], b[27], b[28]);
    lemma_le_to_u32_roundtrip(b[29], b[30], b[31], b[32]);
    lemma_le_to_u32_roundtrip(b[33], b[34], b[35], b[36]);
    lemma_le_to_u32_roundtrip(b[37], b[38], b[39], b[40]);
    lemma_le_to_u32_roundtrip(b[41], b[42], b[43], b[44]);
    lemma_le_to_u32_roundtrip(b[45], b[46], b[47], b[48]);
    lemma_le_to_u32_roundtrip(b[49], b[50], b[51], b[52]);
    lemma_le_to_u64_roundtrip(b[53], b[54], b[55], b[56], b[57], b[58], b[59], b[60]);
    lemma_le_to_u32_roundtrip(b[61], b[62], b[63], b[64]);
    lemma_le_to_u32_roundtrip(b[65], b[66], b[67], b[68]);
    lemma_le_to_u32_roundtrip(b[69], b[70], b[71], b[72]);
    assert(checkpoint_enc(checkpoint_dec(b)) =~= b);
}

/// The control file: cluster identity, the pointer to the latest
/// checkpoint, its embedded copy, and the remainder of the image held
/// verbatim (fields this core never interprets).
#[derive(Debug, Clone, PartialEq, Eq)]
pub struct ControlFile {
    /// Unique system identifier of the cluster.
    pub system_identifier: u64,
    /// Position of the latest checkpoint record.
    pub check_point: u64,
    /// Copy of the latest checkpoint record.
    pub checkpoint_copy: Checkpoint,
    /// Everything after the fixed prefix, preserved byte for byte.
    pub tail: Vec<u8>,
}

/// The encoding of a control file: the fixed prefix then the tail.
pub open spec fn control_file_enc(cf: ControlFile) -> Seq<u8> {
    u64_le(cf.system_identifier) + u64_le(cf.check_point) + checkpoint_enc(cf.checkpoint_copy)
        + cf.tail@
}

/// Encodes a control file.
pub fn encode_pg_control(cf: &ControlFile) -> (out: Vec<u8>)
    ensures
        out@ == control_file_enc(*cf),
{
    let mut out: Vec<u8> = Vec::new();
    push_u64_le(&mut out, cf.system_identifier);
    push_u64_le(&mut out, cf.check_point);
    let cp = encode_checkpoint(&cf.checkpoint_copy);
    out.extend_from_slice(cp.as_slice());
    out.extend_from_slice(cf.tail.as_slice());
    proof {
        assert(out@ =~= control_file_enc(*cf));
    }
    out
}

/// Reading the prefix fields of a long-enough image and re-encoding them,
/// with the tail kept, reproduces the image.
#[verifier::rlimit(100)]
proof fn lemma_control_prefix_reconstruct(b: Seq<u8>)
    requires
        b.len() >= CONTROL_FILE_PREFIX,
    ensures
        u64_le(le64_at(b, 0)) + u64_le(le64_at(b, 8)) + checkpoint_enc(
            checkpoint_dec(b.subrange(16int, 89int)),
        ) + b.skip(CONTROL_FILE_PREFIX as int) == b,
{
    lemma_le_to_u64_roundtrip(b[0], b[1], b[2], b[3], b[4], b[5], b[6], b[7]);
    lemma_le_to_u64_roundtrip(b[8], b[9], b[10], b[11], b[12], b[13], b[14], b[15]);
    let mid = b.subrange(16int, 89int);
    lemma_checkpoint_bytes_roundtrip(mid);
    assert(u64_le(le64_at(b, 0)) + u64_le(le64_at(b, 8)) + checkpoint_enc(checkpoint_dec(mid))
        + b.skip(CONTROL_FILE_PREFIX as int) =~= b);
}

/// Decodes a control file image; anything shorter than the fixed prefix
/// is refused.
#[verifier::rlimit(50)]
pub fn decode_pg_control(b: &Vec<u8>) -> (r: Result<ControlFile, BasebackupError>)
    ensures
        r is Ok <==> b@.len() >= CONTROL_FILE_PREFIX,
        r matches Ok(cf) ==> {
            &&& cf.system_identifier == le64_at(b@, 0)
            &&& cf.check_point == le64_at(b@, 8)
            &&& cf.checkpoint_copy == checkpoint_dec(b@.subrange(16int, 89int))
            &&& cf.tail@ == b@.skip(CONTROL_FILE_PREFIX as int)
            &&& control_file_enc(cf) == b@
        },
        r is Err ==> r == Err::<ControlFile, BasebackupError>(
            BasebackupError::BadControlFile(b@.len() as usize),
        ),
{
    if b.len() < CONTROL_FILE_PREFIX {
        return Err(BasebackupError::BadControlFile(b.len()));
    }
    let s = b.as_slice();
    let system_identifier = read_u64_le(s, 0);
    let check_point = read_u64_le(s, 8);
    let mut cp_bytes: Vec<u8> = Vec::new();
    let mut i: usize = 16;
    while i < 16 + CHECKPOINT_BYTES
        invariant
            16 <= i <= 16 + CHECKPOINT_BYTES <= b@.len(),
            cp_bytes@ =~= b@.subrange(16, i as int),
        decreases 16 + CHECKPOINT_BYTES - i,
    {
        cp_bytes.push(b[i]);
        proof {
            assert(cp_bytes@ =~= b@.subrange(16, i + 1));
        }
        i += 1;
    }
    let checkpoint_copy = match decode_checkpoint(&cp_bytes) {
        Ok(c) => c,
        Err(_) => {
            proof {
                assert(cp_bytes@.len() == CHECKPOINT_BYTES);
            }
            return Err(BasebackupError::BadControlFile(b.len()));
        },
    };
    let mut tail: Vec<u8> = Vec::new();
    let mut j: usize = CONTROL_FILE_PREFIX;
    let len = b.len();
    while j < len
        invariant
            CONTROL_FILE_PREFIX <= j <= len == b@.len(),
            tail@ =~= b@.subrange(CONTROL_FILE_PREFIX as int, j as int),
        decreases len - j,
    {
        tail.push(b[j]);
        proof {
            assert(tail@ =~= b@.subrange(CONTROL_FILE_PREFIX as int, j + 1));
        }
        j += 1;
    }
    let cf = ControlFile { system_identifier, check_point, checkpoint_copy, tail };
    proof {
        assert(cf.tail@ =~= b@.skip(CONTROL_FILE_PREFIX as int));
        lemma_control_prefix_reconstruct(b@);
    }
    Ok(cf)
}

} // verus!
