//! Looking into an image for diagnosis: reading what is there, sound or not.

use vstd::prelude::*;
use crate::format::{RtoskHeader, RtoskSegment, header_at, read_header, read_segment, segment_at};

verus! {

/// Where the entry address lies in a segment.
#[derive(Clone, Copy, Debug, PartialEq, Eq, Structural)]
pub struct EntryHit {
    /// Index of the segment.
    pub segment: usize,
    /// Bytes from the start of the segment's memory to the entry.
    pub delta: u64,
    /// Where the entry's byte would stand in the image, held at the largest
    /// 64-bit number where that is exceeded.
    pub file_offset: u64,
}

/// Whether `entry` lies in the memory of `seg`, the end of which is held at
/// the largest 64-bit address.
pub open spec fn contains_entry(seg: RtoskSegment, entry: u64) -> bool {
    seg.memory_addr <= entry && (entry < seg.memory_addr + seg.memory_size) && entry < u64::MAX
}

/// The hit of `entry` in segment `k`.
pub open spec fn hit_of(segs: Seq<RtoskSegment>, k: int, entry: u64) -> EntryHit {
    let seg = segs[k];
    let delta = entry - seg.memory_addr;
    EntryHit {
        segment: k as usize,
        delta: delta as u64,
        file_offset: if seg.file_offset + delta > u64::MAX {
            u64::MAX
        } else {
            (seg.file_offset + delta) as u64
        },
    }
}

/// The hits of `entry` in the first `n` segments, in order.
pub open spec fn hits_in(segs: Seq<RtoskSegment>, n: int, entry: u64) -> Seq<EntryHit>
    decreases n,
{
    if n <= 0 {
        Seq::empty()
    } else if contains_entry(segs[n - 1], entry) {
        hits_in(segs, n - 1, entry).push(hit_of(segs, n - 1, entry))
    } else {
        hits_in(segs, n - 1, entry)
    }
}

/// Reads the header that stands at `offset`, whatever its magic; `None`
/// where fewer than 40 bytes are left.
pub fn read_header_at(blob: &[u8], offset: usize) -> (h: Option<RtoskHeader>)
    ensures
        match h {
            Some(h) => offset + 40 <= blob@.len() && h@ == header_at(blob@, offset as int),
            None => offset + 40 > blob@.len(),
        },
{
    if blob.len() < 40 || offset > blob.len() - 40 {
        return None;
    }
    Some(read_header(blob, offset))
}

/// Reads up to `count` segment descriptors from `offset` on, and stops at
/// the first that does not lie inside `blob`.
pub fn read_segments_at(blob: &[u8], offset: usize, count: u32) -> (segs: Vec<RtoskSegment>)
    ensures
        segs@.len() <= count,
        forall|k: int| 0 <= k < segs@.len() ==> segs@[k] == segment_at(blob@, offset + 40 * k),
        offset + 40 * segs@.len() <= blob@.len() || segs@.len() == 0,
        segs@.len() < count ==> offset + 40 * (segs@.len() + 1) > blob@.len(),
{
    let mut segs: Vec<RtoskSegment> = Vec::new();
    if offset > blob.len() {
        return segs;
    }
    let mut at: usize = offset;
    let mut k: u32 = 0;
    while k < count
        invariant
            k <= count,
            segs@.len() == k,
            at == offset + 40 * k,
            at <= blob@.len(),
            forall|j: int| 0 <= j < k ==> segs@[j] == segment_at(blob@, offset + 40 * j),
        decreases count - k,
    {
        if blob.len() - at < 40 {
            return segs;
        }
        segs.push(read_segment(blob, at));
        at = at + 40;
        k = k + 1;
    }
    segs
}

/// Finds every segment whose memory holds the entry address.
pub fn entry_hits(entry: u64, segs: &Vec<RtoskSegment>) -> (hits: Vec<EntryHit>)
    ensures
        hits@ == hits_in(segs@, segs@.len() as int, entry),
{
    let mut hits: Vec<EntryHit> = Vec::new();
    let mut k: usize = 0;
    while k < segs.len()
        invariant
            k <= segs.len(),
            hits@ == hits_in(segs@, k as int, entry),
        decreases segs.len() - k,
    {
        let seg = segs[k];
        let end: u64 = if seg.memory_size > u64::MAX - seg.memory_addr {
            u64::MAX
        } else {
            seg.memory_addr + seg.memory_size
        };
        if entry >= seg.memory_addr && entry < end {
            let delta = entry - seg.memory_addr;
            let file_offset = if delta > u64::MAX - seg.file_offset {
                u64::MAX
            } else {
                seg.file_offset + delta
            };
            hits.push(EntryHit { segment: k, delta, file_offset });
        }
        k = k + 1;
    }
    hits
}

} // verus!
