//! Finding and decoding the header and segment table of an image.

use vstd::prelude::*;
use crate::crc::{crc_verifies, verify_image_crc};
use crate::format::{RtoskHeader, RtoskSegment, HeaderView, RTOSK_MAGIC};
use crate::format::{header_at, segment_at, segments_at, read_header, read_segment};

verus! {

/// Why an image could not be decoded.
#[derive(Clone, Copy, Debug, PartialEq, Eq, Structural)]
pub enum RtoskError {
    /// Fewer bytes than a header takes.
    BlobTooSmall,
    /// The first five bytes are not the magic.
    BadMagic,
    /// `header_len` is not the size of the header plus the segment table.
    BadHeaderLen,
    /// The segment table runs past the end of the bytes.
    SegmentTableOutOfBounds,
}

/// Whether `needle` stands in `haystack` at index `i`.
pub open spec fn occurs_at(haystack: Seq<u8>, needle: Seq<u8>, i: int) -> bool {
    0 <= i && i + needle.len() <= haystack.len() && haystack.subrange(i, i + needle.len())
        == needle
}

/// What decoding a header from the start of `bytes` gives.
pub open spec fn parse_header_spec(bytes: Seq<u8>) -> Result<(HeaderView, nat), RtoskError> {
    if bytes.len() < 40 {
        Err(RtoskError::BlobTooSmall)
    } else if bytes.subrange(0, 5) != RTOSK_MAGIC@ {
        Err(RtoskError::BadMagic)
    } else {
        Ok((header_at(bytes, 0), 40))
    }
}

/// What decoding `count` segment descriptors from the start of `bytes` gives.
pub open spec fn parse_segments_spec(bytes: Seq<u8>, count: u32) -> Result<
    (Seq<RtoskSegment>, nat),
    RtoskError,
> {
    if bytes.len() < 40 * count {
        Err(RtoskError::SegmentTableOutOfBounds)
    } else {
        Ok((segments_at(bytes, 0, count as nat), (40 * count) as nat))
    }
}

/// What decoding the header and the table behind it gives: the header, the
/// segments, the bytes the header took and the bytes the table took.
pub open spec fn parse_image_spec(bytes: Seq<u8>) -> Result<
    (HeaderView, Seq<RtoskSegment>, nat, nat),
    RtoskError,
> {
    match parse_header_spec(bytes) {
        Err(e) => Err(e),
        Ok((h, n)) => match parse_segments_spec(bytes.subrange(40, bytes.len() as int), h.seg_count) {
            Err(e) => Err(e),
            Ok((segs, m)) => Ok((h, segs, n, m)),
        },
    }
}

/// The integrity conditions of an image that starts at the first byte of
/// `bytes`: the magic, a non-zero entry, a header length that matches the
/// segment count, a table that fits, a checksum that verifies, and segments
/// whose file bytes lie inside the image and fit their memory.
pub open spec fn valid_image(bytes: Seq<u8>) -> bool {
    let h = header_at(bytes, 0);
    &&& bytes.len() >= 40
    &&& bytes.subrange(0, 5) == RTOSK_MAGIC@
    &&& h.entry64 != 0
    &&& h.header_len == 40 + 40 * h.seg_count
    &&& h.header_len <= bytes.len()
    &&& crc_verifies(bytes)
    &&& forall|k: int|
        0 <= k < h.seg_count ==> segment_fits(#[trigger] segment_at(bytes, 40 + 40 * k), bytes.len())
}

/// Whether the file bytes of `seg` lie inside an image of `len` bytes and
/// are no more than the memory the segment reserves.
pub open spec fn segment_fits(seg: RtoskSegment, len: nat) -> bool {
    seg.file_size <= seg.memory_size && seg.file_offset + seg.file_size <= len
}

/// Finds the first place where `magic` stands in `haystack`.
pub fn find_magic(haystack: &[u8], magic: &[u8]) -> (found: Option<usize>)
    ensures
        match found {
            Some(i) => occurs_at(haystack@, magic@, i as int) && forall|j: int|
                0 <= j < i ==> !occurs_at(haystack@, magic@, j),
            None => forall|j: int| !occurs_at(haystack@, magic@, j),
        },
{
    if haystack.len() < magic.len() {
        return None;
    }
    let last: usize = haystack.len() - magic.len();
    let mut i: usize = 0;
    while i < last
        invariant
            i <= last,
            last == haystack.len() - magic.len(),
            forall|j: int| 0 <= j < i ==> !occurs_at(haystack@, magic@, j),
        decreases last - i,
    {
        if matches_at(haystack, magic, i) {
            return Some(i);
        }
        i = i + 1;
    }
    if matches_at(haystack, magic, last) {
        Some(last)
    } else {
        None
    }
}

/// Compares `magic` with the bytes of `haystack` from `at` on.
fn matches_at(haystack: &[u8], magic: &[u8], at: usize) -> (ok: bool)
    requires
        at + magic.len() <= haystack.len(),
    ensures
        ok == occurs_at(haystack@, magic@, at as int),
{
    let mut k: usize = 0;
    while k < magic.len()
        invariant
            k <= magic.len(),
            at + magic.len() <= haystack.len(),
            forall|j: int| 0 <= j < k ==> haystack@[at + j] == magic@[j],
        decreases magic.len() - k,
    {
        if haystack[at + k] != magic[k] {
            proof {
                let window = haystack@.subrange(at as int, at + magic.len());
                assert(window[k as int] == haystack@[at + k]);
            }
            return false;
        }
        k = k + 1;
    }
    assert(haystack@.subrange(at as int, at + magic.len()) =~= magic@);
    true
}

/// Decodes the header at the start of `bytes` and says how many bytes it took.
pub fn parse_header(bytes: &[u8]) -> (r: Result<(RtoskHeader, usize), RtoskError>)
    ensures
        match r {
            Ok((h, n)) => parse_header_spec(bytes@) == Ok::<(HeaderView, nat), RtoskError>((h@, n as nat)),
            Err(e) => parse_header_spec(bytes@) == Err::<(HeaderView, nat), RtoskError>(e),
        },
{
    if bytes.len() < 40 {
        return Err(RtoskError::BlobTooSmall);
    }
    let h = read_header(bytes, 0);
    if !h.is_valid() {
        return Err(RtoskError::BadMagic);
    }
    Ok((h, 40))
}

/// Decodes `segment_count` descriptors from the start of `bytes` and says how
/// many bytes they took.
pub fn parse_segments(bytes: &[u8], segment_count: u32) -> (r: Result<
    (Vec<RtoskSegment>, usize),
    RtoskError,
>)
    ensures
        match r {
            Ok((segs, n)) => parse_segments_spec(bytes@, segment_count) == Ok::<
                (Seq<RtoskSegment>, nat),
                RtoskError,
            >((segs@, n as nat)),
            Err(e) => parse_segments_spec(bytes@, segment_count) == Err::<
                (Seq<RtoskSegment>, nat),
                RtoskError,
            >(e),
        },
{
    let need: u64 = 40 * (segment_count as u64);
    if (bytes.len() as u64) < need {
        return Err(RtoskError::SegmentTableOutOfBounds);
    }
    let mut segs: Vec<RtoskSegment> = Vec::new();
    let mut k: usize = 0;
    while k < segment_count as usize
        invariant
            k <= segment_count,
            40 * segment_count <= bytes.len(),
            segs@ == segments_at(bytes@, 0, k as nat),
        decreases segment_count - k,
    {
        let seg = read_segment(bytes, 40 * k);
        segs.push(seg);
        assert(segs@ =~= segments_at(bytes@, 0, (k + 1) as nat));
        k = k + 1;
    }
    Ok((segs, need as usize))
}

/// Decodes the header and the segment table that follows it.
pub fn parse_header_and_segments(image_bytes: &[u8]) -> (r: Result<
    (RtoskHeader, Vec<RtoskSegment>, usize, usize),
    RtoskError,
>)
    ensures
        match r {
            Ok((h, segs, n, m)) => parse_image_spec(image_bytes@) == Ok::<
                (HeaderView, Seq<RtoskSegment>, nat, nat),
                RtoskError,
            >((h@, segs@, n as nat, m as nat)),
            Err(e) => parse_image_spec(image_bytes@) == Err::<
                (HeaderView, Seq<RtoskSegment>, nat, nat),
                RtoskError,
            >(e),
        },
{
    let (header, header_len) = match parse_header(image_bytes) {
        Ok(t) => t,
        Err(e) => {
            return Err(e);
        },
    };
    let rest = vstd::slice::slice_subrange(image_bytes, header_len, image_bytes.len());
    match parse_segments(rest, header.seg_count) {
        Ok((segments, seg_bytes)) => Ok((header, segments, header_len, seg_bytes)),
        Err(e) => Err(e),
    }
}

/// Decides whether `image` meets every integrity condition of the format.
pub fn is_valid_image(image: &[u8]) -> (ok: bool)
    ensures
        ok == valid_image(image@),
{
    if image.len() < 40 {
        return false;
    }
    let h = read_header(image, 0);
    if !h.is_valid() || h.entry64 == 0 {
        return false;
    }
    let table_end: u64 = 40 + 40 * (h.seg_count as u64);
    if h.header_len as u64 != table_end || (image.len() as u64) < table_end {
        return false;
    }
    if !verify_image_crc(image) {
        return false;
    }
    let mut k: usize = 0;
    while k < h.seg_count as usize
        invariant
            k <= h.seg_count,
            h@ == header_at(image@, 0),
            40 + 40 * h.seg_count <= image.len(),
            forall|j: int|
                0 <= j < k ==> segment_fits(#[trigger] segment_at(image@, 40 + 40 * j), image@.len()),
        decreases h.seg_count - k,
    {
        let seg = read_segment(image, 40 + 40 * k);
        let fits = seg.file_size <= seg.memory_size && seg.file_size <= image.len() as u64
            && seg.file_offset <= image.len() as u64 - seg.file_size;
        if !fits {
            assert(!segment_fits(segment_at(image@, 40 + 40 * k), image@.len()));
            return false;
        }
        k = k + 1;
    }
    true
}

/// Every valid image decodes: the header carries the magic and a non-zero
/// entry, there are as many segments as the header counts, and the file
/// bytes of each segment lie inside the image.
pub proof fn lemma_valid_image_parses(image: Seq<u8>)
    requires
        valid_image(image),
    ensures
        parse_image_spec(image) is Ok,
        parse_image_spec(image)->Ok_0.0 == header_at(image, 0),
        parse_image_spec(image)->Ok_0.0.magic == RTOSK_MAGIC@,
        parse_image_spec(image)->Ok_0.0.entry64 != 0,
        parse_image_spec(image)->Ok_0.1.len() == header_at(image, 0).seg_count,
        parse_image_spec(image)->Ok_0.2 == 40,
        parse_image_spec(image)->Ok_0.3 == 40 * header_at(image, 0).seg_count,
        forall|k: int|
            #![trigger parse_image_spec(image)->Ok_0.1[k]]
            0 <= k < parse_image_spec(image)->Ok_0.1.len() ==> {
                let seg = parse_image_spec(image)->Ok_0.1[k];
                seg.file_offset + seg.file_size <= image.len() && seg.file_size <= seg.memory_size
            },
{
    let h = header_at(image, 0);
    let rest = image.subrange(40, image.len() as int);
    assert(rest.len() == image.len() - 40);
    assert(parse_segments_spec(rest, h.seg_count) is Ok);
    let segs = parse_image_spec(image)->Ok_0.1;
    assert(segs == segments_at(rest, 0, h.seg_count as nat));
    assert forall|k: int| 0 <= k < segs.len() implies segs[k] == segment_at(image, 40 + 40 * k) by {
        lemma_segment_at_shift(image, 40, 40 * k);
    }
    assert forall|k: int| 0 <= k < segs.len() implies ({
        let seg = #[trigger] segs[k];
        seg.file_offset + seg.file_size <= image.len() && seg.file_size <= seg.memory_size
    }) by {
        assert(segment_fits(segment_at(image, 40 + 40 * k), image.len()));
    }
}

/// A descriptor read from a tail of `s` is the descriptor read from `s` at
/// the shifted place.
pub proof fn lemma_segment_at_shift(s: Seq<u8>, start: int, at: int)
    requires
        0 <= start,
        0 <= at,
        start + at + 40 <= s.len(),
    ensures
        segment_at(s.subrange(start, s.len() as int), at) == segment_at(s, start + at),
{
    let t = s.subrange(start, s.len() as int);
    assert forall|j: int| 0 <= j < 40 implies #[trigger] t[at + j] == s[start + at + j] by {}
}

} // verus!
