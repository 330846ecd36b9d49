//! The packer: from a payload (a flat binary or an ELF64 file) to an image.
//!
//! Packing has three steps. The *plan* picks the entry address and the
//! pieces of the payload that become segments. The *layout* gives each piece
//! its place in the image, 16-byte aligned, behind the header and the
//! segment table. The *image* is the header, the table and the pieces, with
//! the CRC-32 of the whole written into the header last.
//!
//! Every loadable segment that takes memory becomes a segment of the image.
//! A file whose segment, or section where the sections are packed, names
//! bytes that the file does not have is not packed at all.

use vstd::prelude::*;
use crate::crc::{crc32, crc32_of, crc_verifies, zero_crc_field};
use crate::elf::{ElfImage, ElfView, ProgramHeader, SectionHeader, PT_LOAD, SHT_PROGBITS};
use crate::elf::{elf_parse, elf_view, parse_elf};
use crate::format::{RtoskHeader, RtoskSegment, HeaderView, RTOSK_MAGIC};
use crate::format::{header_at, header_bytes, segment_at, segment_table_bytes, segments_at};
use crate::format::lemma_header_bytes_len;
use crate::format::{lemma_header_round_trip, lemma_segment_table_len, lemma_segment_table_round_trip};
use crate::layout::{PackError, build_image, layout};
use crate::layout::{body_bytes, image_bytes, layout_fits, offset_of};
use crate::layout::{packed_header, placed, placed_segment, table_end};
use crate::layout::{lemma_body_holds_piece, lemma_body_len, lemma_piece_ends_inside};
use crate::le::{u32_at, u32_bytes, lemma_u32_round_trip};
use crate::parse::{RtoskError, parse_header_spec, parse_image_spec, parse_segments_spec};
use crate::parse::{lemma_segment_at_shift, segment_fits, valid_image};

verus! {

/// Entry address, and load address of a flat payload, where nothing else is
/// given.
pub const DEFAULT_ENTRY: u64 = 0x20_0000;

/// Page size written to the header where the caller names none.
pub const DEFAULT_PAGE_SIZE: u32 = 4096;

/// Loadable segments with fewer file bytes than this in total are taken for
/// an empty shell, and the sections are packed instead.
pub const SMALL_LOAD_LIMIT: u64 = 64;

/// A part of the payload that becomes one segment of the image.
#[derive(Clone, Copy, Debug, PartialEq, Eq, Structural)]
pub struct Piece {
    /// Where the bytes start in the payload.
    pub src_off: u64,
    /// How many bytes of the payload the piece takes.
    pub file_size: u64,
    /// The virtual address the segment is loaded to.
    pub memory_addr: u64,
    /// The memory the segment reserves.
    pub memory_size: u64,
    /// The segment's flags.
    pub flags: u32,
}

/// Whether the packer takes the program header `ph`: a loadable segment
/// that takes memory.
pub open spec fn load_selected(ph: ProgramHeader) -> bool {
    ph.p_type == PT_LOAD && ph.p_memsz != 0
}

/// The piece made from a program header.
pub open spec fn load_piece(ph: ProgramHeader) -> Piece {
    Piece {
        src_off: ph.p_offset,
        file_size: ph.p_filesz,
        memory_addr: ph.p_vaddr,
        memory_size: ph.p_memsz,
        flags: if ph.executable() { 1 } else { 0 },
    }
}

/// The pieces made from the selected program headers, in their order.
pub open spec fn load_pieces(phs: Seq<ProgramHeader>) -> Seq<Piece>
    decreases phs.len(),
{
    if phs.len() == 0 {
        Seq::empty()
    } else if load_selected(phs.last()) {
        load_pieces(phs.drop_last()).push(load_piece(phs.last()))
    } else {
        load_pieces(phs.drop_last())
    }
}

/// Whether the packer takes the section `sh`: program data that takes memory
/// at run time and is not empty.
pub open spec fn section_selected(sh: SectionHeader) -> bool {
    sh.allocated() && sh.sh_type == SHT_PROGBITS && sh.sh_size != 0
}

/// The piece made from a section header.
pub open spec fn section_piece(sh: SectionHeader) -> Piece {
    Piece {
        src_off: sh.sh_offset,
        file_size: sh.sh_size,
        memory_addr: sh.sh_addr,
        memory_size: sh.sh_size,
        flags: if sh.executable() { 1 } else { 0 },
    }
}

/// The pieces made from the selected sections, in their order.
pub open spec fn section_pieces(shs: Seq<SectionHeader>) -> Seq<Piece>
    decreases shs.len(),
{
    if shs.len() == 0 {
        Seq::empty()
    } else if section_selected(shs.last()) {
        section_pieces(shs.drop_last()).push(section_piece(shs.last()))
    } else {
        section_pieces(shs.drop_last())
    }
}

/// The address of the first section that takes memory at run time and has a
/// non-zero address.
pub open spec fn first_alloc_addr(shs: Seq<SectionHeader>) -> Option<u64>
    decreases shs.len(),
{
    if shs.len() == 0 {
        None
    } else {
        match first_alloc_addr(shs.drop_last()) {
            Some(a) => Some(a),
            None => if shs.last().allocated() && shs.last().sh_addr != 0 {
                Some(shs.last().sh_addr)
            } else {
                None
            },
        }
    }
}

/// The file bytes that the pieces take together.
pub open spec fn total_file_size(pieces: Seq<Piece>) -> nat
    decreases pieces.len(),
{
    if pieces.len() == 0 {
        0
    } else {
        total_file_size(pieces.drop_last()) + pieces.last().file_size as nat
    }
}

/// Whether the bytes of every piece lie inside a payload of `blob_len` bytes.
pub open spec fn pieces_in_bounds(pieces: Seq<Piece>, blob_len: nat) -> bool {
    forall|k: int| 0 <= k < pieces.len() ==> (#[trigger] pieces[k]).src_off + pieces[k].file_size <= blob_len
}

/// Whether the file is an ELF64 little-endian file, the only kind whose
/// headers the packer follows.
pub open spec fn is_elf64_le(elf: Option<ElfView>) -> bool {
    elf is Some && elf->0.is_64 && elf->0.little_endian
}

/// The entry address: the first non-zero of the caller's override, the ELF
/// entry, the address of the first allocated section, and the default.
pub open spec fn choose_entry(elf: Option<ElfView>, entry_override: Option<u64>) -> u64 {
    if entry_override is Some && entry_override->0 != 0 {
        entry_override->0
    } else if is_elf64_le(elf) && elf->0.entry != 0 {
        elf->0.entry
    } else if is_elf64_le(elf) && first_alloc_addr(elf->0.section_headers) is Some {
        first_alloc_addr(elf->0.section_headers)->0
    } else {
        DEFAULT_ENTRY
    }
}

/// The whole payload as one executable piece loaded at `entry`.
pub open spec fn flat_pieces(blob_len: nat, entry: u64) -> Seq<Piece> {
    seq![
        Piece {
            src_off: 0,
            file_size: blob_len as u64,
            memory_addr: entry,
            memory_size: blob_len as u64,
            flags: 1,
        },
    ]
}

/// The pieces of the plan. For an ELF64 little-endian file: the loadable
/// segments, unless they hold fewer than 64 file bytes in total; then the
/// allocated program-data sections, unless there are none. In every other
/// case the whole payload as one executable piece at the entry address.
pub open spec fn choose_pieces(blob_len: nat, elf: Option<ElfView>, entry: u64) -> Seq<Piece> {
    if is_elf64_le(elf) {
        let loads = load_pieces(elf->0.program_headers);
        let sections = section_pieces(elf->0.section_headers);
        if total_file_size(loads) >= SMALL_LOAD_LIMIT {
            loads
        } else if sections.len() > 0 {
            sections
        } else {
            flat_pieces(blob_len, entry)
        }
    } else {
        flat_pieces(blob_len, entry)
    }
}

/// A first allocated address, where there is one, is not zero.
pub proof fn lemma_first_alloc_nonzero(shs: Seq<SectionHeader>)
    ensures
        first_alloc_addr(shs) is Some ==> first_alloc_addr(shs)->0 != 0,
    decreases shs.len(),
{
    if shs.len() > 0 {
        lemma_first_alloc_nonzero(shs.drop_last());
    }
}

/// The entry address of a plan is never zero.
pub proof fn lemma_entry_nonzero(elf: Option<ElfView>, entry_override: Option<u64>)
    ensures
        choose_entry(elf, entry_override) != 0,
{
    if is_elf64_le(elf) {
        lemma_first_alloc_nonzero(elf->0.section_headers);
    }
}

/// Collects the pieces of the selected program headers.
fn select_loads(phs: &Vec<ProgramHeader>) -> (pieces: Vec<Piece>)
    ensures
        pieces@ == load_pieces(phs@),
{
    let mut pieces: Vec<Piece> = Vec::new();
    let mut i: usize = 0;
    while i < phs.len()
        invariant
            i <= phs.len(),
            pieces@ == load_pieces(phs@.subrange(0, i as int)),
        decreases phs.len() - i,
    {
        let ph = phs[i];
        proof {
            let next = phs@.subrange(0, i + 1);
            assert(next.drop_last() =~= phs@.subrange(0, i as int));
            assert(next.last() == ph);
        }
        if ph.p_type == PT_LOAD && ph.p_memsz != 0 {
            pieces.push(
                Piece {
                    src_off: ph.p_offset,
                    file_size: ph.p_filesz,
                    memory_addr: ph.p_vaddr,
                    memory_size: ph.p_memsz,
                    flags: if ph.is_executable() { 1 } else { 0 },
                },
            );
        }
        i = i + 1;
    }
    assert(phs@.subrange(0, i as int) =~= phs@);
    pieces
}

/// Collects the pieces of the selected sections.
fn select_sections(shs: &Vec<SectionHeader>) -> (pieces: Vec<Piece>)
    ensures
        pieces@ == section_pieces(shs@),
{
    let mut pieces: Vec<Piece> = Vec::new();
    let mut i: usize = 0;
    while i < shs.len()
        invariant
            i <= shs.len(),
            pieces@ == section_pieces(shs@.subrange(0, i as int)),
        decreases shs.len() - i,
    {
        let sh = shs[i];
        proof {
            let next = shs@.subrange(0, i + 1);
            assert(next.drop_last() =~= shs@.subrange(0, i as int));
            assert(next.last() == sh);
        }
        if sh.is_allocated() && sh.sh_type == SHT_PROGBITS && sh.sh_size != 0 {
            pieces.push(
                Piece {
                    src_off: sh.sh_offset,
                    file_size: sh.sh_size,
                    memory_addr: sh.sh_addr,
                    memory_size: sh.sh_size,
                    flags: if sh.is_executable() { 1 } else { 0 },
                },
            );
        }
        i = i + 1;
    }
    assert(shs@.subrange(0, i as int) =~= shs@);
    pieces
}

/// Finds the address of the first allocated section with a non-zero address.
fn find_first_alloc(shs: &Vec<SectionHeader>) -> (addr: Option<u64>)
    ensures
        addr == first_alloc_addr(shs@),
        addr is Some ==> addr->0 != 0,
{
    let mut i: usize = 0;
    while i < shs.len()
        invariant
            i <= shs.len(),
            first_alloc_addr(shs@.subrange(0, i as int)) is None,
        decreases shs.len() - i,
    {
        let sh = shs[i];
        proof {
            let next = shs@.subrange(0, i + 1);
            assert(next.drop_last() =~= shs@.subrange(0, i as int));
            assert(next.last() == sh);
        }
        if sh.is_allocated() && sh.sh_addr != 0 {
            proof {
                lemma_first_alloc_stays(shs@, i + 1);
            }
            return Some(sh.sh_addr);
        }
        i = i + 1;
    }
    assert(shs@.subrange(0, i as int) =~= shs@);
    None
}

/// Once a prefix of the sections has a first allocated address, every longer
/// prefix has the same.
proof fn lemma_first_alloc_stays(shs: Seq<SectionHeader>, n: int)
    requires
        0 <= n <= shs.len(),
        first_alloc_addr(shs.subrange(0, n)) is Some,
    ensures
        first_alloc_addr(shs) == first_alloc_addr(shs.subrange(0, n)),
    decreases shs.len() - n,
{
    if n < shs.len() {
        let next = shs.subrange(0, n + 1);
        assert(next.drop_last() =~= shs.subrange(0, n));
        lemma_first_alloc_stays(shs, n + 1);
    } else {
        assert(shs.subrange(0, n) =~= shs);
    }
}

/// Decides whether the pieces hold fewer than 64 file bytes in total.
fn is_small(pieces: &Vec<Piece>) -> (small: bool)
    ensures
        small == (total_file_size(pieces@) < SMALL_LOAD_LIMIT),
{
    let mut sum: u64 = 0;
    let mut i: usize = 0;
    while i < pieces.len()
        invariant
            i <= pieces.len(),
            sum < SMALL_LOAD_LIMIT,
            sum == total_file_size(pieces@.subrange(0, i as int)),
        decreases pieces.len() - i,
    {
        let size = pieces[i].file_size;
        proof {
            let next = pieces@.subrange(0, i + 1);
            assert(next.drop_last() =~= pieces@.subrange(0, i as int));
        }
        if size >= SMALL_LOAD_LIMIT - sum {
            proof {
                lemma_total_grows(pieces@, i + 1);
            }
            return false;
        }
        sum = sum + size;
        i = i + 1;
    }
    assert(pieces@.subrange(0, i as int) =~= pieces@);
    true
}

/// The pieces of a prefix take no more file bytes than all the pieces.
proof fn lemma_total_grows(pieces: Seq<Piece>, n: int)
    requires
        0 <= n <= pieces.len(),
    ensures
        total_file_size(pieces.subrange(0, n)) <= total_file_size(pieces),
    decreases pieces.len() - n,
{
    if n < pieces.len() {
        let next = pieces.subrange(0, n + 1);
        assert(next.drop_last() =~= pieces.subrange(0, n));
        lemma_total_grows(pieces, n + 1);
    } else {
        assert(pieces.subrange(0, n) =~= pieces);
    }
}

/// Picks the entry address and the pieces of `elf`, the outcome of parsing a
/// payload of `blob_len` bytes as an ELF file.
pub fn plan(blob_len: usize, elf: &Option<ElfImage>, entry_override: Option<u64>) -> (planned: (
    u64,
    Vec<Piece>,
))
    ensures
        planned.0 == choose_entry(elf_view(*elf), entry_override),
        planned.1@ == choose_pieces(blob_len as nat, elf_view(*elf), planned.0),
        planned.0 != 0,
{
    let len = blob_len as u64;
    let from_override: u64 = match entry_override {
        Some(v) => v,
        None => 0,
    };
    match elf {
        Some(e) => {
            if e.is_64 && e.little_endian {
                let entry: u64 = if from_override != 0 {
                    from_override
                } else if e.entry != 0 {
                    e.entry
                } else {
                    match find_first_alloc(&e.section_headers) {
                        Some(a) => a,
                        None => DEFAULT_ENTRY,
                    }
                };
                let loads = select_loads(&e.program_headers);
                if !is_small(&loads) {
                    return (entry, loads);
                }
                let sections = select_sections(&e.section_headers);
                if sections.len() > 0 {
                    return (entry, sections);
                }
                return (entry, flat(len, entry));
            }
        },
        None => {},
    }
    let entry: u64 = if from_override != 0 { from_override } else { DEFAULT_ENTRY };
    (entry, flat(len, entry))
}

/// The whole payload as one executable piece.
fn flat(len: u64, entry: u64) -> (pieces: Vec<Piece>)
    ensures
        pieces@ == flat_pieces(len as nat, entry),
{
    let mut pieces: Vec<Piece> = Vec::new();
    pieces.push(Piece { src_off: 0, file_size: len, memory_addr: entry, memory_size: len, flags: 1 });
    assert(pieces@ =~= flat_pieces(len as nat, entry));
    pieces
}

/// What packing gives: the image of the plan, with the CRC-32 of the image
/// taken with a zero checksum written into the header. Packing fails where
/// a piece of the plan has bytes that are not in the payload, and where the
/// plan cannot be laid out.
pub open spec fn pack_spec(
    blob: Seq<u8>,
    elf: Option<ElfView>,
    entry_override: Option<u64>,
    page_size: u32,
) -> Result<Seq<u8>, PackError> {
    let entry = choose_entry(elf, entry_override);
    let pieces = choose_pieces(blob.len(), elf, entry);
    if !pieces_in_bounds(pieces, blob.len()) {
        Err(PackError::PayloadOutOfBounds)
    } else if !layout_fits(pieces) {
        Err(PackError::ImageTooLarge)
    } else {
        let draft = image_bytes(entry, page_size, pieces, blob, 0);
        Ok(image_bytes(entry, page_size, pieces, blob, crc32_of(draft)))
    }
}

/// Decides whether the bytes of every piece lie inside a payload of
/// `blob_len` bytes.
pub fn pieces_fit(pieces: &Vec<Piece>, blob_len: usize) -> (ok: bool)
    ensures
        ok == pieces_in_bounds(pieces@, blob_len as nat),
{
    let len = blob_len as u64;
    let mut k: usize = 0;
    while k < pieces.len()
        invariant
            k <= pieces.len(),
            len == blob_len,
            forall|j: int| 0 <= j < k ==> (#[trigger] pieces@[j]).src_off + pieces@[j].file_size <= len,
        decreases pieces.len() - k,
    {
        let piece = pieces[k];
        if piece.file_size > len || piece.src_off > len - piece.file_size {
            assert(pieces@[k as int].src_off + pieces@[k as int].file_size > len);
            return false;
        }
        k = k + 1;
    }
    true
}

/// Writes the checksum into the header of a finished image.
fn store_crc(out: &mut Vec<u8>, crc: u32)
    requires
        old(out)@.len() >= 36,
    ensures
        final(out)@ == old(out)@.subrange(0, 32) + u32_bytes(crc) + old(out)@.subrange(
            36,
            old(out)@.len() as int,
        ),
{
    out[32] = (crc % 256) as u8;
    out[33] = (crc / 256 % 256) as u8;
    out[34] = (crc / 65536 % 256) as u8;
    out[35] = (crc / 16777216) as u8;
    assert(out@ =~= old(out)@.subrange(0, 32) + u32_bytes(crc) + old(out)@.subrange(
        36,
        old(out)@.len() as int,
    ));
}

/// An image with another checksum differs in the four bytes of the checksum
/// field alone.
pub proof fn lemma_image_with_crc(
    entry: u64,
    page_size: u32,
    pieces: Seq<Piece>,
    blob: Seq<u8>,
    a: u32,
    b: u32,
)
    ensures
        image_bytes(entry, page_size, pieces, blob, a).len() == image_bytes(
            entry,
            page_size,
            pieces,
            blob,
            b,
        ).len(),
        image_bytes(entry, page_size, pieces, blob, a).len() >= 40,
        image_bytes(entry, page_size, pieces, blob, b) == image_bytes(
            entry,
            page_size,
            pieces,
            blob,
            a,
        ).subrange(0, 32) + u32_bytes(b) + image_bytes(entry, page_size, pieces, blob, a).subrange(
            36,
            image_bytes(entry, page_size, pieces, blob, a).len() as int,
        ),
{
    let ha = header_bytes(packed_header(entry, page_size, pieces.len(), a));
    let hb = header_bytes(packed_header(entry, page_size, pieces.len(), b));
    let ia = image_bytes(entry, page_size, pieces, blob, a);
    let ib = image_bytes(entry, page_size, pieces, blob, b);
    assert(ha.len() == 40);
    assert(hb.len() == 40);
    assert(ha.subrange(0, 32) =~= hb.subrange(0, 32));
    assert(ha.subrange(36, 40) =~= hb.subrange(36, 40));
    assert(hb.subrange(32, 36) =~= u32_bytes(b));
    assert(ib =~= ia.subrange(0, 32) + u32_bytes(b) + ia.subrange(36, ia.len() as int)) by {
        assert forall|i: int| 0 <= i < ib.len() implies ib[i] == (ia.subrange(0, 32) + u32_bytes(b)
            + ia.subrange(36, ia.len() as int))[i] by {
            if i < 32 {
                assert(ib[i] == hb.subrange(0, 32)[i]);
                assert(ia[i] == ha.subrange(0, 32)[i]);
            } else if i < 36 {
                assert(ib[i] == hb.subrange(32, 36)[i - 32]);
            } else if i < 40 {
                assert(ib[i] == hb.subrange(36, 40)[i - 36]);
                assert(ia[i] == ha.subrange(36, 40)[i - 36]);
            } else {
            }
        }
    }
}

/// Packs `blob`, given what parsing it as an ELF file gave. Fails with
/// `PayloadOutOfBounds` where a piece of the plan names bytes that `blob`
/// does not have, else with `ImageTooLarge` where the plan cannot be laid
/// out.
pub fn pack_parsed(
    blob: &[u8],
    elf: &Option<ElfImage>,
    entry_override: Option<u64>,
    page_size: u32,
) -> (r: Result<Vec<u8>, PackError>)
    ensures
        match r {
            Ok(image) => pack_spec(blob@, elf_view(*elf), entry_override, page_size) == Ok::<
                Seq<u8>,
                PackError,
            >(image@),
            Err(e) => pack_spec(blob@, elf_view(*elf), entry_override, page_size) == Err::<
                Seq<u8>,
                PackError,
            >(e),
        },
{
    let (entry, pieces) = plan(blob.len(), elf, entry_override);
    if !pieces_fit(&pieces, blob.len()) {
        return Err(PackError::PayloadOutOfBounds);
    }
    let (segs, total) = match layout(&pieces) {
        Ok(t) => t,
        Err(e) => {
            return Err(e);
        },
    };
    let header = RtoskHeader::new(entry, page_size, pieces.len() as u32, 0, 0);
    assert(header@ == packed_header(entry, page_size, pieces@.len(), 0));
    let mut out = build_image(blob, &header, &segs, &pieces);
    let crc = crc32(out.as_slice());
    proof {
        lemma_image_with_crc(entry, page_size, pieces@, blob@, 0, crc);
    }
    store_crc(&mut out, crc);
    Ok(out)
}

/// Packs `blob` into an image: as an ELF64 little-endian file where it
/// parses as one, else as a flat binary. Fails as `pack_parsed` does.
pub fn pack(blob: &[u8], entry_override: Option<u64>, page_size: u32) -> (r: Result<
    Vec<u8>,
    PackError,
>)
    ensures
        match r {
            Ok(image) => pack_spec(blob@, elf_parse(blob@), entry_override, page_size) == Ok::<
                Seq<u8>,
                PackError,
            >(image@),
            Err(e) => pack_spec(blob@, elf_parse(blob@), entry_override, page_size) == Err::<
                Seq<u8>,
                PackError,
            >(e),
        },
{
    let elf = parse_elf(blob);
    pack_parsed(blob, &elf, entry_override, page_size)
}

/// An image decodes to its header and its segment table: the magic,
/// version 1.0, the entry and page size given, and one segment for each
/// piece in order, each with the address, sizes and flags of its piece and
/// the place the layout gave it.
pub proof fn lemma_image_parses(
    entry: u64,
    page_size: u32,
    pieces: Seq<Piece>,
    blob: Seq<u8>,
    crc: u32,
)
    requires
        layout_fits(pieces),
    ensures
        parse_image_spec(image_bytes(entry, page_size, pieces, blob, crc)) == Ok::<
            (HeaderView, Seq<RtoskSegment>, nat, nat),
            RtoskError,
        >(
            (
                packed_header(entry, page_size, pieces.len(), crc),
                placed(table_end(pieces.len()), pieces),
                40,
                (40 * pieces.len()) as nat,
            ),
        ),
{
    let image = image_bytes(entry, page_size, pieces, blob, crc);
    let h = packed_header(entry, page_size, pieces.len(), crc);
    let start = table_end(pieces.len());
    let segs = placed(start, pieces);
    let head = header_bytes(h);
    let table = segment_table_bytes(segs);
    let body = body_bytes(start, pieces, blob);
    lemma_segment_table_len(segs);
    lemma_header_bytes_len(h);
    assert(image == head + table + body);
    assert(image.subrange(0, 40) =~= head);
    lemma_header_round_trip(image, 0, h);
    assert(header_at(image, 0).magic == image.subrange(0, 5));
    let rest = image.subrange(40, image.len() as int);
    assert(rest =~= table + body);
    assert(rest.subrange(0, 40 * (segs.len() as int)) =~= table);
    lemma_segment_table_round_trip(rest, 0, segs);
    assert(h.seg_count == pieces.len());
    assert(parse_header_spec(image) == Ok::<(HeaderView, nat), RtoskError>(
        (h, 40),
    ));
    assert(parse_segments_spec(rest, h.seg_count) == Ok::<
        (Seq<RtoskSegment>, nat),
        RtoskError,
    >((segs, (40 * pieces.len()) as nat)));
}

/// An image whose header holds the CRC-32 of the same image with a zero
/// checksum verifies.
pub proof fn lemma_image_crc_verifies(
    entry: u64,
    page_size: u32,
    pieces: Seq<Piece>,
    blob: Seq<u8>,
)
    ensures
        ({
            let draft = image_bytes(entry, page_size, pieces, blob, 0);
            let image = image_bytes(entry, page_size, pieces, blob, crc32_of(draft));
            &&& zero_crc_field(image) == draft
            &&& u32_at(image, 32) == crc32_of(draft)
            &&& crc_verifies(image)
        }),
{
    let draft = image_bytes(entry, page_size, pieces, blob, 0);
    let crc = crc32_of(draft);
    let image = image_bytes(entry, page_size, pieces, blob, crc);
    lemma_image_with_crc(entry, page_size, pieces, blob, crc, 0);
    lemma_image_with_crc(entry, page_size, pieces, blob, 0, crc);
    assert(u32_bytes(0) =~= seq![0u8, 0u8, 0u8, 0u8]);
    assert(zero_crc_field(image) =~= draft);
    assert(image.subrange(32, 36) =~= u32_bytes(crc));
    lemma_u32_round_trip(image, 32, crc);
}

/// The file bytes of segment `k` of an image lie inside the image, and they
/// are the bytes of piece `k` of the payload.
pub proof fn lemma_image_holds_piece(
    entry: u64,
    page_size: u32,
    pieces: Seq<Piece>,
    blob: Seq<u8>,
    crc: u32,
    k: int,
)
    requires
        layout_fits(pieces),
        pieces_in_bounds(pieces, blob.len()),
        0 <= k < pieces.len(),
    ensures
        ({
            let image = image_bytes(entry, page_size, pieces, blob, crc);
            let seg = placed(table_end(pieces.len()), pieces)[k];
            &&& seg.file_offset + seg.file_size <= image.len()
            &&& image.subrange(seg.file_offset as int, seg.file_offset + seg.file_size)
                == blob.subrange(pieces[k].src_off as int, pieces[k].src_off + pieces[k].file_size)
        }),
{
    let image = image_bytes(entry, page_size, pieces, blob, crc);
    let start = table_end(pieces.len());
    let h = packed_header(entry, page_size, pieces.len(), crc);
    let front = header_bytes(h) + segment_table_bytes(placed(start, pieces));
    let body = body_bytes(start, pieces, blob);
    lemma_segment_table_len(placed(start, pieces));
    lemma_header_bytes_len(h);
    lemma_body_holds_piece(start, pieces, blob, k);
    lemma_body_len(start, pieces, blob);
    lemma_piece_ends_inside(start, pieces, k);
    assert(front.len() == start);
    assert(image =~= front + body);
    let off = offset_of(start, pieces, k);
    assert(off + pieces[k].file_size <= usize::MAX);
    assert(image.subrange(off as int, off + pieces[k].file_size) =~= body.subrange(
        off - start,
        off - start + pieces[k].file_size,
    ));
}

/// A packed image decodes to the header and the segment table of its plan,
/// and its entry is not zero.
pub proof fn lemma_packed_image_parses(
    blob: Seq<u8>,
    elf: Option<ElfView>,
    entry_override: Option<u64>,
    page_size: u32,
)
    requires
        pack_spec(blob, elf, entry_override, page_size) is Ok,
    ensures
        choose_entry(elf, entry_override) != 0,
        parse_image_spec(pack_spec(blob, elf, entry_override, page_size)->Ok_0) is Ok,
        parse_image_spec(pack_spec(blob, elf, entry_override, page_size)->Ok_0)->Ok_0.0.magic
            == RTOSK_MAGIC@,
        parse_image_spec(pack_spec(blob, elf, entry_override, page_size)->Ok_0)->Ok_0.0.entry64
            == choose_entry(elf, entry_override),
        parse_image_spec(pack_spec(blob, elf, entry_override, page_size)->Ok_0)->Ok_0.0.page_size
            == page_size,
        parse_image_spec(pack_spec(blob, elf, entry_override, page_size)->Ok_0)->Ok_0.0.header_len
            == 40 + 40 * parse_image_spec(
            pack_spec(blob, elf, entry_override, page_size)->Ok_0,
        )->Ok_0.0.seg_count,
        parse_image_spec(pack_spec(blob, elf, entry_override, page_size)->Ok_0)->Ok_0.1 == placed(
            table_end(choose_pieces(blob.len(), elf, choose_entry(elf, entry_override)).len()),
            choose_pieces(blob.len(), elf, choose_entry(elf, entry_override)),
        ),
{
    let entry = choose_entry(elf, entry_override);
    let pieces = choose_pieces(blob.len(), elf, entry);
    let crc = crc32_of(image_bytes(entry, page_size, pieces, blob, 0));
    lemma_entry_nonzero(elf, entry_override);
    lemma_image_parses(entry, page_size, pieces, blob, crc);
}

/// The checksum in the header of a packed image is the CRC-32 of the image
/// taken with the checksum field zeroed.
pub proof fn lemma_packed_crc_verifies(
    blob: Seq<u8>,
    elf: Option<ElfView>,
    entry_override: Option<u64>,
    page_size: u32,
)
    requires
        pack_spec(blob, elf, entry_override, page_size) is Ok,
    ensures
        crc_verifies(pack_spec(blob, elf, entry_override, page_size)->Ok_0),
        parse_image_spec(pack_spec(blob, elf, entry_override, page_size)->Ok_0) is Ok,
        parse_image_spec(pack_spec(blob, elf, entry_override, page_size)->Ok_0)->Ok_0.0.image_crc32
            == crc32_of(zero_crc_field(pack_spec(blob, elf, entry_override, page_size)->Ok_0)),
        parse_header_spec(pack_spec(blob, elf, entry_override, page_size)->Ok_0) is Ok,
        parse_header_spec(
            pack_spec(blob, elf, entry_override, page_size)->Ok_0,
        )->Ok_0.0.image_crc32 == crc32_of(
            zero_crc_field(pack_spec(blob, elf, entry_override, page_size)->Ok_0),
        ),
{
    let entry = choose_entry(elf, entry_override);
    let pieces = choose_pieces(blob.len(), elf, entry);
    let crc = crc32_of(image_bytes(entry, page_size, pieces, blob, 0));
    lemma_image_parses(entry, page_size, pieces, blob, crc);
    lemma_image_crc_verifies(entry, page_size, pieces, blob);
}

/// The file bytes of every segment of a packed image lie inside the image,
/// and they are the bytes of its piece of the payload.
pub proof fn lemma_packed_payload(
    blob: Seq<u8>,
    elf: Option<ElfView>,
    entry_override: Option<u64>,
    page_size: u32,
    k: int,
)
    requires
        blob.len() <= u64::MAX,
        pack_spec(blob, elf, entry_override, page_size) is Ok,
        0 <= k < choose_pieces(blob.len(), elf, choose_entry(elf, entry_override)).len(),
    ensures
        ({
            let image = pack_spec(blob, elf, entry_override, page_size)->Ok_0;
            let pieces = choose_pieces(blob.len(), elf, choose_entry(elf, entry_override));
            let seg = placed(table_end(pieces.len()), pieces)[k];
            &&& seg.file_offset + seg.file_size <= image.len()
            &&& image.subrange(seg.file_offset as int, seg.file_offset + seg.file_size)
                == blob.subrange(pieces[k].src_off as int, pieces[k].src_off + pieces[k].file_size)
        }),
{
    let entry = choose_entry(elf, entry_override);
    let pieces = choose_pieces(blob.len(), elf, entry);
    let crc = crc32_of(image_bytes(entry, page_size, pieces, blob, 0));
    lemma_image_holds_piece(entry, page_size, pieces, blob, crc, k);
}

/// Every selected program header has its piece among the pieces.
pub proof fn lemma_selected_load_has_piece(phs: Seq<ProgramHeader>, i: int)
    requires
        0 <= i < phs.len(),
        load_selected(phs[i]),
    ensures
        exists|k: int|
            0 <= k < load_pieces(phs).len() && #[trigger] load_pieces(phs)[k] == load_piece(phs[i]),
    decreases phs.len(),
{
    let all = load_pieces(phs);
    if i == phs.len() - 1 {
        assert(all[all.len() - 1] == load_piece(phs[i]));
    } else {
        lemma_selected_load_has_piece(phs.drop_last(), i);
        let k = choose|k: int|
            0 <= k < load_pieces(phs.drop_last()).len() && #[trigger] load_pieces(phs.drop_last())[k]
                == load_piece(phs.drop_last()[i]);
        assert(all[k] == load_piece(phs[i]));
    }
}

/// The segment table of a layout has, for the piece of a program header, a
/// segment with the header's address, sizes and executable mark.
proof fn lemma_piece_has_segment(
    segs: Seq<RtoskSegment>,
    start: nat,
    pieces: Seq<Piece>,
    ph: ProgramHeader,
    k: int,
)
    requires
        segs == placed(start, pieces),
        0 <= k < pieces.len(),
        pieces[k] == load_piece(ph),
    ensures
        exists|j: int|
            #![trigger segs[j]]
            0 <= j < segs.len() && segs[j].memory_addr == ph.p_vaddr && segs[j].memory_size
                == ph.p_memsz && segs[j].file_size == ph.p_filesz && segs[j].executable()
                == ph.executable(),
{
    assert(segs[k] == placed_segment(start, pieces, k));
    assert(segs[k].memory_addr == ph.p_vaddr);
    assert(segs[k].executable() == ph.executable());
}

/// Where packing an ELF64 little-endian file succeeds and the loadable
/// segments hold at least 64 file bytes in total, every loadable segment
/// that takes memory is kept: the image has a segment with its address, its
/// sizes, and marked executable exactly if the program header is.
pub proof fn lemma_loads_become_segments(
    blob: Seq<u8>,
    elf: Option<ElfView>,
    entry_override: Option<u64>,
    page_size: u32,
    i: int,
)
    requires
        is_elf64_le(elf),
        total_file_size(load_pieces(elf->0.program_headers)) >= SMALL_LOAD_LIMIT,
        pack_spec(blob, elf, entry_override, page_size) is Ok,
        0 <= i < elf->0.program_headers.len(),
        load_selected(elf->0.program_headers[i]),
    ensures
        parse_image_spec(pack_spec(blob, elf, entry_override, page_size)->Ok_0) is Ok,
        ({
            let segs = parse_image_spec(pack_spec(blob, elf, entry_override, page_size)->Ok_0)->Ok_0.1;
            let ph = elf->0.program_headers[i];
            exists|k: int|
                #![trigger segs[k]]
                0 <= k < segs.len() && segs[k].memory_addr == ph.p_vaddr && segs[k].memory_size
                    == ph.p_memsz && segs[k].file_size == ph.p_filesz && segs[k].executable()
                    == ph.executable()
        }),
{
    let phs = elf->0.program_headers;
    let pieces = load_pieces(phs);
    let image = pack_spec(blob, elf, entry_override, page_size)->Ok_0;
    let segs = parse_image_spec(image)->Ok_0.1;
    assert(choose_pieces(blob.len(), elf, choose_entry(elf, entry_override)) == pieces);
    lemma_packed_image_parses(blob, elf, entry_override, page_size);
    assert(segs == placed(table_end(pieces.len()), pieces));
    lemma_selected_load_has_piece(phs, i);
    let k = choose|k: int| 0 <= k < pieces.len() && #[trigger] pieces[k] == load_piece(phs[i]);
    lemma_piece_has_segment(segs, table_end(pieces.len()), pieces, phs[i], k);
}

/// A packed image whose every piece has no more file bytes than memory
/// meets every integrity condition of the format.
pub proof fn lemma_packed_image_valid(
    blob: Seq<u8>,
    elf: Option<ElfView>,
    entry_override: Option<u64>,
    page_size: u32,
)
    requires
        blob.len() <= u64::MAX,
        pack_spec(blob, elf, entry_override, page_size) is Ok,
        forall|k: int|
            #![trigger choose_pieces(blob.len(), elf, choose_entry(elf, entry_override))[k]]
            0 <= k < choose_pieces(blob.len(), elf, choose_entry(elf, entry_override)).len()
                ==> choose_pieces(blob.len(), elf, choose_entry(elf, entry_override))[k].file_size
                <= choose_pieces(blob.len(), elf, choose_entry(elf, entry_override))[k].memory_size,
    ensures
        valid_image(pack_spec(blob, elf, entry_override, page_size)->Ok_0),
{
    let entry = choose_entry(elf, entry_override);
    let pieces = choose_pieces(blob.len(), elf, entry);
    let crc = crc32_of(image_bytes(entry, page_size, pieces, blob, 0));
    let image = image_bytes(entry, page_size, pieces, blob, crc);
    let start = table_end(pieces.len());
    let segs = placed(start, pieces);
    lemma_entry_nonzero(elf, entry_override);
    lemma_image_parses(entry, page_size, pieces, blob, crc);
    lemma_image_crc_verifies(entry, page_size, pieces, blob);
    lemma_segment_table_len(segs);
    lemma_header_bytes_len(packed_header(entry, page_size, pieces.len(), crc));
    let rest = image.subrange(40, image.len() as int);
    assert(header_at(image, 0) == packed_header(entry, page_size, pieces.len(), crc));
    assert forall|k: int| 0 <= k < pieces.len() implies segment_fits(
        #[trigger] segment_at(image, 40 + 40 * k),
        image.len(),
    ) by {
        lemma_image_holds_piece(entry, page_size, pieces, blob, crc, k);
        lemma_segment_at_shift(image, 40, 40 * k);
        assert(segments_at(rest, 0, pieces.len())[k] == segment_at(rest, 40 * k));
        assert(segs[k] == placed_segment(start, pieces, k));
        assert(pieces[k].file_size <= pieces[k].memory_size);
    }
}

} // verus!
