//! The SLRU segment accumulator: coalesces sparse per-page reads of the
//! commit log and the multixact logs into fixed-size segment files, one
//! resident segment at a time.

use vstd::prelude::*;
use crate::errors::BasebackupError;
use crate::numfmt::{
    hex_str_pad, is_digit_char, lemma_hex_str_pad_props, lemma_sixteen_pow_8, push_hex_pad,
};
use crate::tario::{lemma_name_ok_from_chars, tar_name_ok};
use crate::pg_constants::{BLCKSZ, SLRU_PAGES_PER_SEGMENT, SLRU_SEG_SIZE};

verus! {

/// The page-log categories whose pages run through the accumulator.
#[derive(Debug, Clone, Copy, PartialEq, Eq, Structural)]
pub enum SlruCategory {
    /// Commit-log pages, archived under `pg_xact`.
    Clog,
    /// Multixact member pages, archived under `pg_multixact/members`.
    MultiXactMembers,
    /// Multixact offset pages, archived under `pg_multixact/offsets`.
    MultiXactOffsets,
}

impl SlruCategory {
    /// The archive directory this category's segments are written under.
    pub open spec fn dir_chars(self) -> Seq<char> {
        match self {
            SlruCategory::Clog => "pg_xact"@,
            SlruCategory::MultiXactMembers => "pg_multixact/members"@,
            SlruCategory::MultiXactOffsets => "pg_multixact/offsets"@,
        }
    }
}

/// The archive path of one flushed segment:
/// `<category>/<segment number as 4-hex-digit uppercase>`.
pub open spec fn slru_entry_path(category: SlruCategory, segno: u32) -> Seq<char> {
    category.dir_chars() + seq!['/'] + hex_str_pad(segno as int, 4)
}

/// Every flushed segment's archive path is a name the sink is sure to
/// store byte for byte.
pub proof fn lemma_slru_path_name_ok(category: SlruCategory, segno: u32)
    ensures
        tar_name_ok(slru_entry_path(category, segno)),
{
    let dir = category.dir_chars();
    let hx = hex_str_pad(segno as int, 4);
    let p = slru_entry_path(category, segno);
    reveal_strlit("pg_xact");
    reveal_strlit("pg_multixact/members");
    reveal_strlit("pg_multixact/offsets");
    assert("pg_xact"@ =~= seq!['p', 'g', '_', 'x', 'a', 'c', 't']);
    assert("pg_multixact/members"@ =~= seq![
        'p', 'g', '_', 'm', 'u', 'l', 't', 'i', 'x', 'a', 'c', 't', '/', 'm', 'e', 'm', 'b',
        'e', 'r', 's',
    ]);
    assert("pg_multixact/offsets"@ =~= seq![
        'p', 'g', '_', 'm', 'u', 'l', 't', 'i', 'x', 'a', 'c', 't', '/', 'o', 'f', 'f', 's',
        'e', 't', 's',
    ]);
    lemma_sixteen_pow_8();
    lemma_hex_str_pad_props(segno as int, 4, 8);
    let dl = dir.len() as int;
    assert(p.len() == dl + 1 + hx.len());
    assert forall|k: int| 0 <= k < p.len() implies 32 <= (#[trigger] p[k]) as int <= 126 && p[k]
        != '.' && (p[k] == '/' ==> (k == dl || (0 < k < dl && dir[k] == '/'))) by {
        if k < dl {
            assert(p[k] == dir[k]);
        } else if k == dl {
            assert(p[k] == '/');
        } else {
            assert(p[k] == hx[k - dl - 1]);
            assert(is_digit_char(hx[k - dl - 1]));
        }
    }
    assert(p[0] == dir[0]);
    assert(p[p.len() - 1] == hx[hx.len() - 1]);
    assert(is_digit_char(hx[hx.len() - 1]));
    assert forall|k: int| 0 < k < p.len() implies !((#[trigger] p[k]) == '/' && p[k - 1] == '/')
        by {
        if p[k] == '/' && p[k - 1] == '/' {
            if k == dl {
                assert(p[k - 1] == dir[dl - 1]);
            } else {
                assert(0 < k < dl && dir[k] == '/');
                assert(p[k - 1] == dir[k - 1]);
            }
        }
    }
    lemma_name_ok_from_chars(p);
}

/// A sequence of `n` zero bytes.
pub open spec fn zero_bytes(n: nat) -> Seq<u8> {
    Seq::new(n, |i: int| 0u8)
}

/// The buffer with the page image written at the page's slot.
pub open spec fn write_page(buf: Seq<u8>, page: u32, img: Seq<u8>) -> Seq<u8> {
    let off = (page as int % 32) * 8192;
    buf.take(off) + img + buf.skip(off + 8192)
}

/// The buffer after a sequence of page writes, applied in order.
pub open spec fn apply_pages(buf: Seq<u8>, adds: Seq<(u32, Seq<u8>)>) -> Seq<u8>
    decreases adds.len(),
{
    if adds.len() == 0 {
        buf
    } else {
        write_page(apply_pages(buf, adds.drop_last()), adds.last().0, adds.last().1)
    }
}

/// Does the slot of `page` cover buffer position `k`?
pub open spec fn slot_covers(page: u32, k: int) -> bool {
    (page as int % 32) * 8192 <= k < (page as int % 32) * 8192 + 8192
}

/// Is buffer position `k` covered by any of the written pages?
pub open spec fn covered(adds: Seq<(u32, Seq<u8>)>, k: int) -> bool {
    exists|i: int| 0 <= i < adds.len() && slot_covers(#[trigger] adds[i].0, k)
}

/// How `write_page` acts on each buffer position.
proof fn lemma_write_page_index(buf: Seq<u8>, page: u32, img: Seq<u8>, k: int)
    requires
        buf.len() == SLRU_SEG_SIZE,
        img.len() == BLCKSZ,
        0 <= k < SLRU_SEG_SIZE,
    ensures
        write_page(buf, page, img).len() == SLRU_SEG_SIZE,
        slot_covers(page, k) ==> write_page(buf, page, img)[k] == img[k - (page as int % 32)
            * 8192],
        !slot_covers(page, k) ==> write_page(buf, page, img)[k] == buf[k],
{
    let off = (page as int % 32) * 8192;
    assert(0 <= page as int % 32 < 32);
    assert(0 <= off && off + 8192 <= SLRU_SEG_SIZE);
}

/// Law: pages of one segment, written in any order at distinct slots into
/// a zeroed buffer, assemble into a buffer of exactly the segment size in
/// which each page image stands at `(page mod pages-per-segment) *
/// page-size` and every byte under no written page is zero.
pub proof fn lemma_segment_assembly(adds: Seq<(u32, Seq<u8>)>)
    requires
        forall|i: int| 0 <= i < adds.len() ==> (#[trigger] adds[i].1).len() == BLCKSZ,
        forall|i: int, j: int| 0 <= i < j < adds.len() ==> (#[trigger] adds[i].0) as int % 32 != (
        #[trigger] adds[j].0) as int % 32,
    ensures
        apply_pages(zero_bytes(SLRU_SEG_SIZE as nat), adds).len() == SLRU_SEG_SIZE,
        forall|i: int, k: int| 0 <= i < adds.len() && #[trigger] slot_covers(adds[i].0, k)
            ==> apply_pages(zero_bytes(SLRU_SEG_SIZE as nat), adds)[k] == adds[i].1[k - (
        adds[i].0 as int % 32) * 8192],
        forall|k: int| 0 <= k < SLRU_SEG_SIZE && !covered(adds, k) ==> apply_pages(
            zero_bytes(SLRU_SEG_SIZE as nat),
            adds,
        )[k] == 0,
    decreases adds.len(),
{
    let z = zero_bytes(SLRU_SEG_SIZE as nat);
    let b = apply_pages(z, adds);
    if adds.len() == 0 {
    } else {
        let front = adds.drop_last();
        let p = adds.last().0;
        let img = adds.last().1;
        lemma_segment_assembly(front);
        let c = apply_pages(z, front);
        assert(b == write_page(c, p, img));
        assert forall|k: int| 0 <= k < SLRU_SEG_SIZE implies b.len() == SLRU_SEG_SIZE && (
        slot_covers(p, k) ==> b[k] == img[k - (p as int % 32) * 8192]) && (!slot_covers(p, k)
            ==> b[k] == c[k]) by {
            lemma_write_page_index(c, p, img, k);
        }
        assert forall|i: int, k: int|
            0 <= i < adds.len() && #[trigger] slot_covers(adds[i].0, k) implies b[k] == adds[i].1[
            k - (adds[i].0 as int % 32) * 8192] by {
            assert(0 <= p as int % 32 < 32);
            assert(0 <= adds[i].0 as int % 32 < 32);
            if i == adds.len() - 1 {
                assert(adds[i].0 == p);
            } else {
                assert(front[i] == adds[i]);
                assert(adds[i].0 as int % 32 != p as int % 32);
                assert(!slot_covers(p, k));
                assert(b[k] == c[k]);
            }
        }
        assert forall|k: int| 0 <= k < SLRU_SEG_SIZE && !covered(adds, k) implies b[k] == 0 by {
            assert(!slot_covers(adds[adds.len() - 1].0, k));
            assert(!covered(front, k)) by {
                if covered(front, k) {
                    let i = choose|i: int| 0 <= i < front.len() && slot_covers(
                        #[trigger] front[i].0,
                        k,
                    );
                    assert(adds[i] == front[i]);
                    assert(slot_covers(adds[i].0, k));
                }
            }
            assert(b[k] == c[k]);
        }
    }
}

/// A `Vec` of `n` zero bytes.
pub fn zero_vec(n: usize) -> (v: Vec<u8>)
    ensures
        v@ =~= zero_bytes(n as nat),
{
    let mut v: Vec<u8> = Vec::new();
    let mut i: usize = 0;
    while i < n
        invariant
            0 <= i <= n,
            v@.len() == i,
            forall|k: int| 0 <= k < i ==> v@[k] == 0u8,
        decreases n - i,
    {
        v.push(0u8);
        i += 1;
    }
    v
}

/// Builds the archive path of one segment as a string.
pub fn slru_segment_path(category: SlruCategory, segno: u32) -> (p: String)
    ensures
        p@ == slru_entry_path(category, segno),
{
    let mut p = match category {
        SlruCategory::Clog => String::from_str("pg_xact"),
        SlruCategory::MultiXactMembers => String::from_str("pg_multixact/members"),
        SlruCategory::MultiXactOffsets => String::from_str("pg_multixact/offsets"),
    };
    proof {
        reveal_strlit("/");
    }
    p.append("/");
    push_hex_pad(&mut p, segno as u64, 4);
    proof {
        assert(p@ =~= slru_entry_path(category, segno));
    }
    p
}

/// The accumulator's state: the category and segment number of the
/// resident segment, if any, and the segment buffer being filled.
pub struct SlruAccumulator {
    /// Which segment the buffer belongs to; `None` before the first page.
    pub cur: Option<(SlruCategory, u32)>,
    /// The resident segment buffer, always one segment long.
    pub buf: Vec<u8>,
}

impl SlruAccumulator {
    /// The buffer is always exactly one segment long.
    pub open spec fn wf(self) -> bool {
        self.buf@.len() == SLRU_SEG_SIZE
    }

    /// A fresh accumulator: nothing resident, an all-zero buffer.
    pub fn new() -> (acc: SlruAccumulator)
        ensures
            acc.wf(),
            acc.cur is None,
            acc.buf@ == zero_bytes(SLRU_SEG_SIZE as nat),
    {
        SlruAccumulator { cur: None, buf: zero_vec(SLRU_SEG_SIZE) }
    }

    /// Accepts one page image for `(category, page)`.
    ///
    /// An empty image marks a truncated page and changes nothing. Any
    /// other image must be exactly one page long, else the run is aborted.
    /// When the page belongs to a different `(category, segment)` than the
    /// resident buffer, that buffer is handed back as exactly one finished
    /// entry (its path and its bytes) before the new segment starts from
    /// zeros; at most one entry is ever handed back per call.
    pub fn add(&mut self, category: SlruCategory, page: u32, img: &Vec<u8>) -> (r: Result<
        Option<(String, Vec<u8>)>,
        BasebackupError,
    >)
        requires
            old(self).wf(),
        ensures
            final(self).wf(),
            match r {
                Ok(flushed) => {
                    if img@.len() == 0 {
                        *final(self) == *old(self) && flushed is None
                    } else {
                        let segno = page / 32;
                        img@.len() == BLCKSZ && final(self).cur == Some((category, segno))
                            && (match old(self).cur {
                            None => flushed is None && final(self).buf@ == write_page(
                                old(self).buf@,
                                page,
                                img@,
                            ),
                            Some((c, s)) => {
                                if c == category && s == segno {
                                    flushed is None && final(self).buf@ == write_page(
                                        old(self).buf@,
                                        page,
                                        img@,
                                    )
                                } else {
                                    match flushed {
                                        Some((path, data)) => path@ == slru_entry_path(c, s)
                                            && data@ == old(self).buf@ && final(self).buf@
                                            == write_page(
                                            zero_bytes(SLRU_SEG_SIZE as nat),
                                            page,
                                            img@,
                                        ),
                                        None => false,
                                    }
                                }
                            },
                        })
                    }
                },
                Err(e) => e == BasebackupError::BadSlruPageSize(img@.len() as usize) && img@.len()
                    != 0 && img@.len() != BLCKSZ && *final(self) == *old(self),
            },
            r is Ok <==> (img@.len() == 0 || img@.len() == BLCKSZ),
    {
        if img.len() == 0 {
            return Ok(None);
        }
        if img.len() != BLCKSZ {
            return Err(BasebackupError::BadSlruPageSize(img.len()));
        }
        let segno = page / SLRU_PAGES_PER_SEGMENT;
        let mut flushed: Option<(String, Vec<u8>)> = None;
        if let Some((c, s)) = self.cur {
            if !(c == category && s == segno) {
                let path = slru_segment_path(c, s);
                let mut data = zero_vec(SLRU_SEG_SIZE);
                core::mem::swap(&mut self.buf, &mut data);
                flushed = Some((path, data));
            }
        }
        self.cur = Some((category, segno));
        let off = (page % SLRU_PAGES_PER_SEGMENT) as usize * BLCKSZ;
        let ghost start = self.buf@;
        let mut i: usize = 0;
        while i < BLCKSZ
            invariant
                0 <= i <= BLCKSZ,
                self.cur == Some((category, segno)),
                segno == page / 32,
                img@.len() == BLCKSZ,
                off == (page as int % 32) * 8192,
                off + BLCKSZ <= SLRU_SEG_SIZE,
                self.buf@.len() == SLRU_SEG_SIZE == start.len(),
                forall|k: int| 0 <= k < off ==> self.buf@[k] == start[k],
                forall|k: int| off <= k < off + i ==> self.buf@[k] == img@[k - off],
                forall|k: int| off + i <= k < SLRU_SEG_SIZE ==> self.buf@[k] == start[k],
            decreases BLCKSZ - i,
        {
            let b = img[i];
            self.buf.set(off + i, b);
            i += 1;
        }
        proof {
            assert(self.buf@ =~= write_page(start, page, img@));
        }
        Ok(flushed)
    }

    /// Hands back the still-buffered segment, if any; a no-op when nothing
    /// was ever buffered. After the call nothing is resident.
    pub fn finish(&mut self) -> (r: Option<(String, Vec<u8>)>)
        requires
            old(self).wf(),
        ensures
            final(self).wf(),
            final(self).cur is None,
            match old(self).cur {
                None => r is None && *final(self) == *old(self),
                Some((c, s)) => match r {
                    Some((path, data)) => path@ == slru_entry_path(c, s) && data@ == old(
                        self,
                    ).buf@,
                    None => false,
                },
            },
    {
        let cur = self.cur;
        match cur {
            None => None,
            Some((c, s)) => {
                let path = slru_segment_path(c, s);
                let mut data = zero_vec(SLRU_SEG_SIZE);
                core::mem::swap(&mut self.buf, &mut data);
                self.cur = None;
                Some((path, data))
            },
        }
    }
}

} // verus!
