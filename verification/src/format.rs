//! Fixed-layout records of the kernel image container.
//!
//! An image starts with a 40-byte header, followed by `seg_count` segment
//! descriptors of 40 bytes each, followed by the payload bytes. All fields
//! are little-endian and sit at their natural alignment:
//!
//! | header field  | bytes   |   | segment field | bytes   |
//! |---------------|---------|---|---------------|---------|
//! | `magic`       | 0..5    |   | `file_offset` | 0..8    |
//! | `ver_major`   | 6..8    |   | `memory_addr` | 8..16   |
//! | `ver_minor`   | 8..10   |   | `memory_size` | 16..24  |
//! | `header_len`  | 12..16  |   | `file_size`   | 24..32  |
//! | `entry64`     | 16..24  |   | `flags`       | 32..36  |
//! | `page_size`   | 24..28  |   |               |         |
//! | `seg_count`   | 28..32  |   |               |         |
//! | `image_crc32` | 32..36  |   |               |         |
//! | `flags`       | 36..40  |   |               |         |
//!
//! The bytes in between are padding: written as zero, ignored when read.

use vstd::prelude::*;
use crate::le::{u16_at, u32_at, u64_at, u16_bytes, u32_bytes, u64_bytes};
use crate::le::{read_u16, read_u32, read_u64, push_u16, push_u32, push_u64};
use crate::le::{lemma_u16_round_trip, lemma_u32_round_trip, lemma_u64_round_trip};

verus! {

/// The five bytes every image starts with: `RTOSK`.
pub const RTOSK_MAGIC: [u8; 5] = [0x52, 0x54, 0x4f, 0x53, 0x4b];

/// Bit 0 of a segment's flags: the segment holds executable code.
pub const RTOSK_EXEC_FLAG: u32 = 1;

/// Size of the encoded header in bytes.
pub const HEADER_SIZE: usize = 40;

/// Size of one encoded segment descriptor in bytes.
pub const SEGMENT_SIZE: usize = 40;

/// The most segments an image can have: with one more, the length of
/// header and segment table would not fit the 32 bits of `header_len`.
pub const MAX_SEGMENTS: u32 = 107_374_181;

/// Offset of `image_crc32` within the header.
pub const CRC_OFFSET: usize = 32;

/// The image header.
#[derive(Clone, Copy, Debug)]
pub struct RtoskHeader {
    pub magic: [u8; 5],
    pub ver_major: u16,
    pub ver_minor: u16,
    pub header_len: u32,
    pub entry64: u64,
    pub page_size: u32,
    pub seg_count: u32,
    pub image_crc32: u32,
    pub flags: u32,
}

/// A header as a mathematical value: the magic is a sequence of bytes.
pub struct HeaderView {
    pub magic: Seq<u8>,
    pub ver_major: u16,
    pub ver_minor: u16,
    pub header_len: u32,
    pub entry64: u64,
    pub page_size: u32,
    pub seg_count: u32,
    pub image_crc32: u32,
    pub flags: u32,
}

impl View for RtoskHeader {
    type V = HeaderView;

    open spec fn view(&self) -> HeaderView {
        HeaderView {
            magic: self.magic@,
            ver_major: self.ver_major,
            ver_minor: self.ver_minor,
            header_len: self.header_len,
            entry64: self.entry64,
            page_size: self.page_size,
            seg_count: self.seg_count,
            image_crc32: self.image_crc32,
            flags: self.flags,
        }
    }
}

/// One segment descriptor: a file range and the memory range it is loaded to.
#[derive(Clone, Copy, Debug, PartialEq, Eq, Structural)]
pub struct RtoskSegment {
    pub file_offset: u64,
    pub memory_addr: u64,
    pub memory_size: u64,
    pub file_size: u64,
    pub flags: u32,
}

/// The 40 bytes that encode `h`.
pub open spec fn header_bytes(h: HeaderView) -> Seq<u8> {
    h.magic + seq![0u8] + u16_bytes(h.ver_major) + u16_bytes(h.ver_minor) + seq![0u8, 0u8]
        + u32_bytes(h.header_len) + u64_bytes(h.entry64) + u32_bytes(h.page_size) + u32_bytes(
        h.seg_count,
    ) + u32_bytes(h.image_crc32) + u32_bytes(h.flags)
}

/// The header that the 40 bytes from `at` on encode.
pub open spec fn header_at(s: Seq<u8>, at: int) -> HeaderView {
    HeaderView {
        magic: s.subrange(at, at + 5),
        ver_major: u16_at(s, at + 6),
        ver_minor: u16_at(s, at + 8),
        header_len: u32_at(s, at + 12),
        entry64: u64_at(s, at + 16),
        page_size: u32_at(s, at + 24),
        seg_count: u32_at(s, at + 28),
        image_crc32: u32_at(s, at + 32),
        flags: u32_at(s, at + 36),
    }
}

/// The 40 bytes that encode `seg`.
pub open spec fn segment_bytes(seg: RtoskSegment) -> Seq<u8> {
    u64_bytes(seg.file_offset) + u64_bytes(seg.memory_addr) + u64_bytes(seg.memory_size)
        + u64_bytes(seg.file_size) + u32_bytes(seg.flags) + seq![0u8, 0u8, 0u8, 0u8]
}

/// The segment descriptor that the 40 bytes from `at` on encode.
pub open spec fn segment_at(s: Seq<u8>, at: int) -> RtoskSegment {
    RtoskSegment {
        file_offset: u64_at(s, at),
        memory_addr: u64_at(s, at + 8),
        memory_size: u64_at(s, at + 16),
        file_size: u64_at(s, at + 24),
        flags: u32_at(s, at + 32),
    }
}

/// The encoding of a table of segment descriptors, one after the other.
pub open spec fn segment_table_bytes(segs: Seq<RtoskSegment>) -> Seq<u8>
    decreases segs.len(),
{
    if segs.len() == 0 {
        Seq::empty()
    } else {
        segment_table_bytes(segs.drop_last()) + segment_bytes(segs.last())
    }
}

/// The table of `count` descriptors that starts at `at`.
pub open spec fn segments_at(s: Seq<u8>, at: int, count: nat) -> Seq<RtoskSegment> {
    Seq::new(count, |k: int| segment_at(s, at + 40 * k))
}

/// An encoded header is 40 bytes long when its magic has five bytes.
pub proof fn lemma_header_bytes_len(h: HeaderView)
    requires
        h.magic.len() == 5,
    ensures
        header_bytes(h).len() == 40,
{
}

/// An encoded table of `n` descriptors is `40 * n` bytes long.
pub proof fn lemma_segment_table_len(segs: Seq<RtoskSegment>)
    ensures
        segment_table_bytes(segs).len() == 40 * segs.len(),
    decreases segs.len(),
{
    if segs.len() > 0 {
        lemma_segment_table_len(segs.drop_last());
    }
}

/// Decoding an encoded header gives the header back, wherever the 40 bytes
/// sit in a longer sequence.
pub proof fn lemma_header_round_trip(s: Seq<u8>, at: int, h: HeaderView)
    requires
        h.magic.len() == 5,
        0 <= at,
        at + 40 <= s.len(),
        s.subrange(at, at + 40) == header_bytes(h),
    ensures
        header_at(s, at) == h,
{
    let e = header_bytes(h);
    let t = s.subrange(at, at + 40);
    assert(s.subrange(at, at + 5) =~= t.subrange(0, 5));
    assert(e.subrange(0, 5) =~= h.magic);
    assert(s.subrange(at + 6, at + 8) =~= t.subrange(6, 8));
    assert(e.subrange(6, 8) =~= u16_bytes(h.ver_major));
    lemma_u16_round_trip(s, at + 6, h.ver_major);
    assert(s.subrange(at + 8, at + 10) =~= t.subrange(8, 10));
    assert(e.subrange(8, 10) =~= u16_bytes(h.ver_minor));
    lemma_u16_round_trip(s, at + 8, h.ver_minor);
    assert(s.subrange(at + 12, at + 16) =~= t.subrange(12, 16));
    assert(e.subrange(12, 16) =~= u32_bytes(h.header_len));
    lemma_u32_round_trip(s, at + 12, h.header_len);
    assert(s.subrange(at + 16, at + 24) =~= t.subrange(16, 24));
    assert(e.subrange(16, 24) =~= u64_bytes(h.entry64));
    lemma_u64_round_trip(s, at + 16, h.entry64);
    assert(s.subrange(at + 24, at + 28) =~= t.subrange(24, 28));
    assert(e.subrange(24, 28) =~= u32_bytes(h.page_size));
    lemma_u32_round_trip(s, at + 24, h.page_size);
    assert(s.subrange(at + 28, at + 32) =~= t.subrange(28, 32));
    assert(e.subrange(28, 32) =~= u32_bytes(h.seg_count));
    lemma_u32_round_trip(s, at + 28, h.seg_count);
    assert(s.subrange(at + 32, at + 36) =~= t.subrange(32, 36));
    assert(e.subrange(32, 36) =~= u32_bytes(h.image_crc32));
    lemma_u32_round_trip(s, at + 32, h.image_crc32);
    assert(s.subrange(at + 36, at + 40) =~= t.subrange(36, 40));
    assert(e.subrange(36, 40) =~= u32_bytes(h.flags));
    lemma_u32_round_trip(s, at + 36, h.flags);
    assert(header_at(s, at).magic =~= h.magic);
}

/// Decoding an encoded segment descriptor gives the descriptor back.
pub proof fn lemma_segment_round_trip(s: Seq<u8>, at: int, seg: RtoskSegment)
    requires
        0 <= at,
        at + 40 <= s.len(),
        s.subrange(at, at + 40) == segment_bytes(seg),
    ensures
        segment_at(s, at) == seg,
{
    let e = segment_bytes(seg);
    let t = s.subrange(at, at + 40);
    assert(s.subrange(at, at + 8) =~= t.subrange(0, 8));
    assert(e.subrange(0, 8) =~= u64_bytes(seg.file_offset));
    lemma_u64_round_trip(s, at, seg.file_offset);
    assert(s.subrange(at + 8, at + 16) =~= t.subrange(8, 16));
    assert(e.subrange(8, 16) =~= u64_bytes(seg.memory_addr));
    lemma_u64_round_trip(s, at + 8, seg.memory_addr);
    assert(s.subrange(at + 16, at + 24) =~= t.subrange(16, 24));
    assert(e.subrange(16, 24) =~= u64_bytes(seg.memory_size));
    lemma_u64_round_trip(s, at + 16, seg.memory_size);
    assert(s.subrange(at + 24, at + 32) =~= t.subrange(24, 32));
    assert(e.subrange(24, 32) =~= u64_bytes(seg.file_size));
    lemma_u64_round_trip(s, at + 24, seg.file_size);
    assert(s.subrange(at + 32, at + 36) =~= t.subrange(32, 36));
    assert(e.subrange(32, 36) =~= u32_bytes(seg.flags));
    lemma_u32_round_trip(s, at + 32, seg.flags);
}

/// Decoding an encoded segment table gives the table back.
pub proof fn lemma_segment_table_round_trip(s: Seq<u8>, at: int, segs: Seq<RtoskSegment>)
    requires
        0 <= at,
        at + 40 * segs.len() <= s.len(),
        s.subrange(at, at + 40 * segs.len()) == segment_table_bytes(segs),
    ensures
        segments_at(s, at, segs.len()) == segs,
{
    assert forall|k: int| 0 <= k < segs.len() implies segment_at(s, at + 40 * k) == segs[k] by {
        lemma_segment_table_entry(segs, k);
        lemma_segment_table_len(segs);
        let t = s.subrange(at, at + 40 * segs.len());
        assert(s.subrange(at + 40 * k, at + 40 * k + 40) =~= t.subrange(40 * k, 40 * k + 40));
        lemma_segment_round_trip(s, at + 40 * k, segs[k]);
    }
    assert(segments_at(s, at, segs.len()) =~= segs);
}

/// The `k`-th 40 bytes of an encoded table encode the `k`-th descriptor.
pub proof fn lemma_segment_table_entry(segs: Seq<RtoskSegment>, k: int)
    requires
        0 <= k < segs.len(),
    ensures
        segment_table_bytes(segs).len() == 40 * segs.len(),
        segment_table_bytes(segs).subrange(40 * k, 40 * k + 40) == segment_bytes(segs[k]),
    decreases segs.len(),
{
    lemma_segment_table_len(segs);
    lemma_segment_table_len(segs.drop_last());
    let head = segment_table_bytes(segs.drop_last());
    let all = segment_table_bytes(segs);
    if k == segs.len() - 1 {
        assert(all.subrange(40 * k, 40 * k + 40) =~= segment_bytes(segs.last()));
    } else {
        lemma_segment_table_entry(segs.drop_last(), k);
        assert(all.subrange(40 * k, 40 * k + 40) =~= head.subrange(40 * k, 40 * k + 40));
    }
}

impl RtoskHeader {
    /// A zeroed header, which no image starts with.
    pub fn empty() -> (h: RtoskHeader)
        ensures
            h.magic@ == seq![0u8, 0u8, 0u8, 0u8, 0u8],
            h.ver_major == 0,
            h.ver_minor == 0,
            h.header_len == 0,
            h.entry64 == 0,
            h.page_size == 0,
            h.seg_count == 0,
            h.image_crc32 == 0,
            h.flags == 0,
    {
        let h = RtoskHeader {
            magic: [0, 0, 0, 0, 0],
            ver_major: 0,
            ver_minor: 0,
            header_len: 0,
            entry64: 0,
            page_size: 0,
            seg_count: 0,
            image_crc32: 0,
            flags: 0,
        };
        assert(h.magic@ =~= seq![0u8, 0u8, 0u8, 0u8, 0u8]);
        h
    }

    /// A version 1.0 header of an image with `seg_count` segments: the magic
    /// is set, and `header_len` covers the header and the segment table.
    pub fn new(entry64: u64, page_size: u32, seg_count: u32, image_crc32: u32, flags: u32) -> (h:
        RtoskHeader)
        requires
            seg_count <= MAX_SEGMENTS,
        ensures
            h@ == (HeaderView {
                magic: RTOSK_MAGIC@,
                ver_major: 1,
                ver_minor: 0,
                header_len: (40 + 40 * seg_count) as u32,
                entry64,
                page_size,
                seg_count,
                image_crc32,
                flags,
            }),
    {
        RtoskHeader {
            magic: RTOSK_MAGIC,
            ver_major: 1,
            ver_minor: 0,
            header_len: 40 + 40 * seg_count,
            entry64,
            page_size,
            seg_count,
            image_crc32,
            flags,
        }
    }

    /// Whether the magic field reads `RTOSK`.
    pub fn is_valid(&self) -> (ok: bool)
        ensures
            ok == (self.magic@ == RTOSK_MAGIC@),
    {
        let m = &self.magic;
        let ok = m[0] == 0x52 && m[1] == 0x54 && m[2] == 0x4f && m[3] == 0x53 && m[4] == 0x4b;
        proof {
            if ok {
                assert(self.magic@ =~= RTOSK_MAGIC@);
            }
        }
        ok
    }

    /// The format version as (major, minor).
    pub fn version(&self) -> (v: (u16, u16))
        ensures
            v == (self.ver_major, self.ver_minor),
    {
        (self.ver_major, self.ver_minor)
    }

    /// Appends the 40 bytes that encode the header.
    pub fn encode(&self, out: &mut Vec<u8>)
        ensures
            final(out)@ == old(out)@ + header_bytes(self@),
    {
        let m = &self.magic;
        out.push(m[0]);
        out.push(m[1]);
        out.push(m[2]);
        out.push(m[3]);
        out.push(m[4]);
        out.push(0);
        assert(out@ =~= old(out)@ + self.magic@ + seq![0u8]);
        push_u16(out, self.ver_major);
        push_u16(out, self.ver_minor);
        out.push(0);
        out.push(0);
        assert(out@ =~= old(out)@ + self.magic@ + seq![0u8] + u16_bytes(self.ver_major) + u16_bytes(
            self.ver_minor,
        ) + seq![0u8, 0u8]);
        push_u32(out, self.header_len);
        push_u64(out, self.entry64);
        push_u32(out, self.page_size);
        push_u32(out, self.seg_count);
        push_u32(out, self.image_crc32);
        push_u32(out, self.flags);
        assert(out@ =~= old(out)@ + header_bytes(self@));
    }
}

impl Default for RtoskHeader {
    fn default() -> (h: RtoskHeader)
        ensures
            h.magic@ == seq![0u8, 0u8, 0u8, 0u8, 0u8],
            h.ver_major == 0,
            h.ver_minor == 0,
            h.header_len == 0,
            h.entry64 == 0,
            h.page_size == 0,
            h.seg_count == 0,
            h.image_crc32 == 0,
            h.flags == 0,
    {
        RtoskHeader::empty()
    }
}

impl RtoskSegment {
    /// A zeroed descriptor.
    pub fn empty() -> (seg: RtoskSegment)
        ensures
            seg == (RtoskSegment { file_offset: 0, memory_addr: 0, memory_size: 0, file_size: 0, flags: 0 }),
    {
        RtoskSegment { file_offset: 0, memory_addr: 0, memory_size: 0, file_size: 0, flags: 0 }
    }

    /// A descriptor with the given fields.
    pub fn new(file_offset: u64, memory_addr: u64, memory_size: u64, file_size: u64, flags: u32) -> (seg:
        RtoskSegment)
        ensures
            seg == (RtoskSegment { file_offset, memory_addr, memory_size, file_size, flags }),
    {
        RtoskSegment { file_offset, memory_addr, memory_size, file_size, flags }
    }

    /// Whether bit 0 of the flags is set, as a mathematical statement.
    pub open spec fn executable(&self) -> bool {
        self.flags % 2 == 1
    }

    /// Whether the segment takes memory and has bytes in the file.
    pub fn is_loadable(&self) -> (ok: bool)
        ensures
            ok == (self.memory_size > 0 && self.file_size > 0),
    {
        self.memory_size > 0 && self.file_size > 0
    }

    /// Whether the segment is marked executable.
    pub fn is_executable(&self) -> (ok: bool)
        ensures
            ok == self.executable(),
    {
        self.flags % 2 == 1
    }

    /// Appends the 40 bytes that encode the descriptor.
    pub fn encode(&self, out: &mut Vec<u8>)
        ensures
            final(out)@ == old(out)@ + segment_bytes(*self),
    {
        push_u64(out, self.file_offset);
        push_u64(out, self.memory_addr);
        push_u64(out, self.memory_size);
        push_u64(out, self.file_size);
        push_u32(out, self.flags);
        out.push(0);
        out.push(0);
        out.push(0);
        out.push(0);
        assert(out@ =~= old(out)@ + segment_bytes(*self));
    }
}

impl Default for RtoskSegment {
    fn default() -> (seg: RtoskSegment)
        ensures
            seg == (RtoskSegment { file_offset: 0, memory_addr: 0, memory_size: 0, file_size: 0, flags: 0 }),
    {
        RtoskSegment::empty()
    }
}

/// Decodes the header stored at `bytes[at..at + 40]`, whatever its magic.
pub fn read_header(bytes: &[u8], at: usize) -> (h: RtoskHeader)
    requires
        at + 40 <= bytes.len(),
    ensures
        h@ == header_at(bytes@, at as int),
{
    let h = RtoskHeader {
        magic: [bytes[at], bytes[at + 1], bytes[at + 2], bytes[at + 3], bytes[at + 4]],
        ver_major: read_u16(bytes, at + 6),
        ver_minor: read_u16(bytes, at + 8),
        header_len: read_u32(bytes, at + 12),
        entry64: read_u64(bytes, at + 16),
        page_size: read_u32(bytes, at + 24),
        seg_count: read_u32(bytes, at + 28),
        image_crc32: read_u32(bytes, at + 32),
        flags: read_u32(bytes, at + 36),
    };
    assert(h.magic@ =~= bytes@.subrange(at as int, at + 5));
    h
}

/// Decodes the segment descriptor stored at `bytes[at..at + 40]`.
pub fn read_segment(bytes: &[u8], at: usize) -> (seg: RtoskSegment)
    requires
        at + 40 <= bytes.len(),
    ensures
        seg == segment_at(bytes@, at as int),
{
    RtoskSegment {
        file_offset: read_u64(bytes, at),
        memory_addr: read_u64(bytes, at + 8),
        memory_size: read_u64(bytes, at + 16),
        file_size: read_u64(bytes, at + 24),
        flags: read_u32(bytes, at + 32),
    }
}

} // verus!
