//! Write-ahead-log structures: page header and record encodings, segment
//! naming, the next-segment redo computation, and the synthesis of one
//! complete shutdown-checkpoint segment.

use vstd::prelude::*;
use crate::bytes_le::{push_u16_le, push_u32_le, push_u64_le, u16_le, u32_le, u64_le};
use crate::checkpoint::{checkpoint_enc, encode_checkpoint, Checkpoint, CHECKPOINT_BYTES};
use crate::crc32::{crc32c_append, crc32c_extend};
use crate::lsn::Lsn;
use crate::numfmt::{hex_str_pad, push_hex_pad};
use crate::pg_constants::{
    RM_XLOG_ID, SIZE_OF_XLOG_LONG_PHD, SIZE_OF_XLOG_RECORD_DATA_HEADER_SHORT,
    SYNTHESIZED_TIMELINE_ID, WAL_SEGMENT_SIZE, XLOG_BLCKSZ, XLOG_CHECKPOINT_SHUTDOWN,
    XLOG_PAGE_MAGIC, XLOG_RECORD_CRC_OFFS, XLOG_SIZE_OF_XLOG_RECORD, XLP_LONG_HEADER,
    XLR_BLOCK_ID_DATA_SHORT,
};
use crate::slru::zero_bytes;

verus! {

/// Number of segments per high 32-bit log-file id, for the fixed segment
/// size: `0x1_0000_0000 / WAL_SEGMENT_SIZE`.
pub const SEGMENTS_PER_XLOG_ID: u64 = 256;

/// The long page header that opens a segment: magic, flags, timeline, page
/// address, continuation length (with the alignment padding), then system
/// identifier, segment size and page size.
pub open spec fn long_phd_enc(tli: u32, pageaddr: u64, sysid: u64) -> Seq<u8> {
    u16_le(XLOG_PAGE_MAGIC) + u16_le(XLP_LONG_HEADER) + u32_le(tli) + u64_le(pageaddr) + u32_le(0)
        + seq![0u8, 0u8, 0u8, 0u8] + u64_le(sysid) + u32_le(WAL_SEGMENT_SIZE as u32) + u32_le(
        XLOG_BLCKSZ as u32,
    )
}

/// A record header up to (not including) its checksum field: total length,
/// transaction id, previous-record pointer, info flags, resource manager,
/// and the two alignment bytes.
pub open spec fn xlog_record_prefix_enc(tot_len: u32, xid: u32, prev: u64, info: u8, rmid: u8)
    -> Seq<u8> {
    u32_le(tot_len) + u32_le(xid) + u64_le(prev) + seq![info, rmid, 0u8, 0u8]
}

/// Total length of the synthesized checkpoint record: record header, short
/// data-block descriptor, checkpoint payload.
pub open spec fn checkpoint_record_len() -> int {
    XLOG_SIZE_OF_XLOG_RECORD + SIZE_OF_XLOG_RECORD_DATA_HEADER_SHORT + CHECKPOINT_BYTES
}

/// The two-byte short data-block descriptor carried by the record.
pub open spec fn short_block_desc() -> Seq<u8> {
    seq![XLR_BLOCK_ID_DATA_SHORT, CHECKPOINT_BYTES as u8]
}

/// The checksum of the synthesized record: CRC-32C over the short
/// data-block descriptor, the checkpoint payload, and the record-header
/// bytes before the checksum field, folded in that order.
pub open spec fn checkpoint_record_crc(cp: Checkpoint) -> u32 {
    crc32c_extend(
        crc32c_extend(crc32c_extend(0, short_block_desc()), checkpoint_enc(cp)),
        xlog_record_prefix_enc(
            checkpoint_record_len() as u32,
            0,
            0,
            XLOG_CHECKPOINT_SHUTDOWN,
            RM_XLOG_ID,
        ),
    )
}

/// One whole synthesized segment: the long page header, the record header
/// with its checksum, the short data-block descriptor, the checkpoint
/// payload, and zero padding up to the fixed segment size.
pub open spec fn wal_segment_enc(cp: Checkpoint, sysid: u64) -> Seq<u8> {
    let body = long_phd_enc(
        SYNTHESIZED_TIMELINE_ID,
        (cp.redo - SIZE_OF_XLOG_LONG_PHD) as u64,
        sysid,
    ) + xlog_record_prefix_enc(
        checkpoint_record_len() as u32,
        0,
        0,
        XLOG_CHECKPOINT_SHUTDOWN,
        RM_XLOG_ID,
    ) + u32_le(checkpoint_record_crc(cp)) + short_block_desc() + checkpoint_enc(cp);
    body + zero_bytes((WAL_SEGMENT_SIZE - body.len()) as nat)
}

/// Law: the synthesized segment is exactly the fixed segment size; its
/// checksum field holds, little-endian, the CRC-32C folded over the
/// data-block descriptor, the checkpoint payload and the record-header
/// bytes before the checksum field, in that order; and everything after
/// the record is zero.
pub proof fn lemma_wal_segment_layout(cp: Checkpoint, sysid: u64)
    ensures
        wal_segment_enc(cp, sysid).len() == WAL_SEGMENT_SIZE,
        wal_segment_enc(cp, sysid).subrange(0, 40) == long_phd_enc(
            SYNTHESIZED_TIMELINE_ID,
            (cp.redo - SIZE_OF_XLOG_LONG_PHD) as u64,
            sysid,
        ),
        wal_segment_enc(cp, sysid).subrange(40, 60) == xlog_record_prefix_enc(
            checkpoint_record_len() as u32,
            0,
            0,
            XLOG_CHECKPOINT_SHUTDOWN,
            RM_XLOG_ID,
        ),
        wal_segment_enc(cp, sysid).subrange(60, 64) == u32_le(checkpoint_record_crc(cp)),
        wal_segment_enc(cp, sysid).subrange(64, 66) == short_block_desc(),
        wal_segment_enc(cp, sysid).subrange(66, 139) == checkpoint_enc(cp),
        forall|k: int| 139 <= k < WAL_SEGMENT_SIZE ==> wal_segment_enc(cp, sysid)[k] == 0,
{
    let w = wal_segment_enc(cp, sysid);
    assert(w.subrange(0, 40) =~= long_phd_enc(
        SYNTHESIZED_TIMELINE_ID,
        (cp.redo - SIZE_OF_XLOG_LONG_PHD) as u64,
        sysid,
    ));
    assert(w.subrange(40, 60) =~= xlog_record_prefix_enc(
        checkpoint_record_len() as u32,
        0,
        0,
        XLOG_CHECKPOINT_SHUTDOWN,
        RM_XLOG_ID,
    ));
    assert(w.subrange(60, 64) =~= u32_le(checkpoint_record_crc(cp)));
    assert(w.subrange(64, 66) =~= short_block_desc());
    assert(w.subrange(66, 139) =~= checkpoint_enc(cp));
}

/// The canonical name of a segment file: timeline id, then the high and
/// low halves of the segment number, each as eight uppercase hex digits.
pub open spec fn wal_file_name_chars(tli: u32, segno: u64) -> Seq<char> {
    hex_str_pad(tli as int, 8) + hex_str_pad(segno as int / SEGMENTS_PER_XLOG_ID as int, 8)
        + hex_str_pad(segno as int % SEGMENTS_PER_XLOG_ID as int, 8)
}

/// Builds the canonical segment file name.
pub fn wal_file_name(tli: u32, segno: u64) -> (name: String)
    ensures
        name@ == wal_file_name_chars(tli, segno),
{
    let mut name = String::new();
    push_hex_pad(&mut name, tli as u64, 8);
    push_hex_pad(&mut name, segno / SEGMENTS_PER_XLOG_ID, 8);
    push_hex_pad(&mut name, segno % SEGMENTS_PER_XLOG_ID, 8);
    proof {
        assert(name@ =~= wal_file_name_chars(tli, segno));
    }
    name
}

/// The segment after the one holding `lsn`, and the redo position at that
/// segment's start of data: just past its long page header.
pub fn next_segment_redo(lsn: Lsn) -> (r: (u64, u64))
    requires
        lsn.0 + WAL_SEGMENT_SIZE + SIZE_OF_XLOG_LONG_PHD <= u64::MAX,
    ensures
        r.0 == lsn.0 as int / WAL_SEGMENT_SIZE as int + 1,
        r.1 == r.0 * WAL_SEGMENT_SIZE + SIZE_OF_XLOG_LONG_PHD,
{
    let seg = WAL_SEGMENT_SIZE as u64;
    let segno = lsn.0 / seg + 1;
    proof {
        let s = WAL_SEGMENT_SIZE as int;
        let q = lsn.0 as int / s;
        vstd::arithmetic::div_mod::lemma_fundamental_div_mod(lsn.0 as int, s);
        vstd::arithmetic::div_mod::lemma_mod_bound(lsn.0 as int, s);
        assert((q + 1) * s == s * q + s) by (nonlinear_arith);
        assert(segno * s == s * q + s);
        assert(segno * s <= lsn.0 + s);
    }
    let redo = segno * seg + (SIZE_OF_XLOG_LONG_PHD as u64);
    (segno, redo)
}

/// Builds the one synthesized write-ahead-log segment: a long page header,
/// a single shutdown-checkpoint record whose checksum covers descriptor,
/// payload and header prefix in that order, and zero padding to the fixed
/// segment size.
pub fn generate_wal_segment(cp: &Checkpoint, sysid: u64) -> (seg: Vec<u8>)
    requires
        cp.redo >= SIZE_OF_XLOG_LONG_PHD,
    ensures
        seg@ == wal_segment_enc(*cp, sysid),
        seg@.len() == WAL_SEGMENT_SIZE,
{
    let tot_len: u32 = (XLOG_SIZE_OF_XLOG_RECORD + SIZE_OF_XLOG_RECORD_DATA_HEADER_SHORT
        + CHECKPOINT_BYTES) as u32;

    // The record-header prefix: everything before the checksum field.
    let mut rec_prefix: Vec<u8> = Vec::new();
    push_u32_le(&mut rec_prefix, tot_len);
    push_u32_le(&mut rec_prefix, 0);
    push_u64_le(&mut rec_prefix, 0);
    rec_prefix.push(XLOG_CHECKPOINT_SHUTDOWN);
    rec_prefix.push(RM_XLOG_ID);
    rec_prefix.push(0u8);
    rec_prefix.push(0u8);
    proof {
        assert(rec_prefix@ =~= xlog_record_prefix_enc(
            checkpoint_record_len() as u32,
            0,
            0,
            XLOG_CHECKPOINT_SHUTDOWN,
            RM_XLOG_ID,
        ));
        assert(rec_prefix@.len() == XLOG_RECORD_CRC_OFFS);
    }

    let mut desc: Vec<u8> = Vec::new();
    desc.push(XLR_BLOCK_ID_DATA_SHORT);
    desc.push(CHECKPOINT_BYTES as u8);
    proof {
        assert(desc@ =~= short_block_desc());
    }

    let payload = encode_checkpoint(cp);

    let mut crc: u32 = 0;
    crc = crc32c_append(crc, desc.as_slice());
    crc = crc32c_append(crc, payload.as_slice());
    crc = crc32c_append(crc, rec_prefix.as_slice());
    proof {
        assert(crc == checkpoint_record_crc(*cp));
    }

    let mut seg: Vec<u8> = Vec::new();
    push_u16_le(&mut seg, XLOG_PAGE_MAGIC);
    push_u16_le(&mut seg, XLP_LONG_HEADER);
    push_u32_le(&mut seg, SYNTHESIZED_TIMELINE_ID);
    push_u64_le(&mut seg, cp.redo - (SIZE_OF_XLOG_LONG_PHD as u64));
    push_u32_le(&mut seg, 0);
    seg.push(0u8);
    seg.push(0u8);
    seg.push(0u8);
    seg.push(0u8);
    push_u64_le(&mut seg, sysid);
    push_u32_le(&mut seg, WAL_SEGMENT_SIZE as u32);
    push_u32_le(&mut seg, XLOG_BLCKSZ as u32);
    proof {
        assert(seg@ =~= long_phd_enc(
            SYNTHESIZED_TIMELINE_ID,
            (cp.redo - SIZE_OF_XLOG_LONG_PHD) as u64,
            sysid,
        ));
    }
    seg.extend_from_slice(rec_prefix.as_slice());
    push_u32_le(&mut seg, crc);
    seg.extend_from_slice(desc.as_slice());
    seg.extend_from_slice(payload.as_slice());
    let ghost body = seg@;
    proof {
        assert(body =~= long_phd_enc(
            SYNTHESIZED_TIMELINE_ID,
            (cp.redo - SIZE_OF_XLOG_LONG_PHD) as u64,
            sysid,
        ) + xlog_record_prefix_enc(
            checkpoint_record_len() as u32,
            0,
            0,
            XLOG_CHECKPOINT_SHUTDOWN,
            RM_XLOG_ID,
        ) + u32_le(checkpoint_record_crc(*cp)) + short_block_desc() + checkpoint_enc(*cp));
        assert(body.len() == 40 + 20 + 4 + 2 + 73);
    }
    while seg.len() < WAL_SEGMENT_SIZE
        invariant
            body.len() == 139,
            body.len() <= seg@.len() <= WAL_SEGMENT_SIZE,
            seg@.take(body.len() as int) == body,
            forall|k: int| body.len() <= k < seg@.len() ==> seg@[k] == 0u8,
        decreases WAL_SEGMENT_SIZE - seg@.len(),
    {
        seg.push(0u8);
        proof {
            assert(seg@.take(body.len() as int) =~= body);
        }
    }
    proof {
        assert(seg@ =~= body + zero_bytes((WAL_SEGMENT_SIZE - body.len()) as nat));
    }
    seg
}

} // verus!
