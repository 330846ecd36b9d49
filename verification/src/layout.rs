//! Where the pieces of a payload stand in the image, and the bytes of the
//! image.

use vstd::prelude::*;
use crate::format::{RtoskHeader, RtoskSegment, HeaderView, RTOSK_MAGIC};
use crate::format::{header_bytes, segment_table_bytes, lemma_segment_table_len};
use crate::pack::{Piece, pieces_in_bounds};

verus! {

/// Why a payload could not be packed.
#[derive(Clone, Copy, Debug, PartialEq, Eq, Structural)]
pub enum PackError {
    /// A segment or section that is to be packed has file bytes that do not
    /// lie inside the payload.
    PayloadOutOfBounds,
    /// The header and segment table would not fit the 32-bit `header_len`,
    /// or the image would be longer than this machine can address.
    ImageTooLarge,
}

/// `x` rounded up to a multiple of 16.
pub open spec fn align16(x: nat) -> nat {
    ((x + 15) / 16 * 16) as nat
}

/// Where the header and a table of `n` segment descriptors end.
pub open spec fn table_end(n: nat) -> nat {
    40 + 40 * n
}

/// Where the image ends when the pieces are laid out from `start` on: each
/// piece begins at the next multiple of 16 and takes its file bytes.
pub open spec fn cursor_after(start: nat, pieces: Seq<Piece>) -> nat
    decreases pieces.len(),
{
    if pieces.len() == 0 {
        start
    } else {
        align16(cursor_after(start, pieces.drop_last())) + pieces.last().file_size as nat
    }
}

/// Where piece `k` begins in the image.
pub open spec fn offset_of(start: nat, pieces: Seq<Piece>, k: int) -> nat {
    align16(cursor_after(start, pieces.subrange(0, k)))
}

/// The segment descriptor of piece `k`.
pub open spec fn placed_segment(start: nat, pieces: Seq<Piece>, k: int) -> RtoskSegment {
    RtoskSegment {
        file_offset: offset_of(start, pieces, k) as u64,
        memory_addr: pieces[k].memory_addr,
        memory_size: pieces[k].memory_size,
        file_size: pieces[k].file_size,
        flags: pieces[k].flags,
    }
}

/// The segment table of the image: one descriptor for each piece, in order.
pub open spec fn placed(start: nat, pieces: Seq<Piece>) -> Seq<RtoskSegment> {
    Seq::new(pieces.len(), |k: int| placed_segment(start, pieces, k))
}

/// `n` zero bytes.
pub open spec fn zeros(n: nat) -> Seq<u8> {
    Seq::new(n, |i: int| 0u8)
}

/// The bytes of the image from `start` on: before each piece the zero bytes
/// that bring it to a multiple of 16, then its bytes from the payload.
pub open spec fn body_bytes(start: nat, pieces: Seq<Piece>, blob: Seq<u8>) -> Seq<u8>
    decreases pieces.len(),
{
    if pieces.len() == 0 {
        Seq::empty()
    } else {
        let before = cursor_after(start, pieces.drop_last());
        let last = pieces.last();
        body_bytes(start, pieces.drop_last(), blob) + zeros((align16(before) - before) as nat)
            + blob.subrange(last.src_off as int, last.src_off + last.file_size)
    }
}

/// Whether the pieces can be laid out: the table fits the 32-bit
/// `header_len`, and the image is no longer than the machine can address.
pub open spec fn layout_fits(pieces: Seq<Piece>) -> bool {
    table_end(pieces.len()) <= u32::MAX && cursor_after(table_end(pieces.len()), pieces)
        <= usize::MAX
}

/// The header of a packed image.
pub open spec fn packed_header(entry: u64, page_size: u32, n: nat, crc: u32) -> HeaderView {
    HeaderView {
        magic: RTOSK_MAGIC@,
        ver_major: 1,
        ver_minor: 0,
        header_len: table_end(n) as u32,
        entry64: entry,
        page_size,
        seg_count: n as u32,
        image_crc32: crc,
        flags: 0,
    }
}

/// The bytes of a packed image whose header holds the checksum `crc`.
pub open spec fn image_bytes(
    entry: u64,
    page_size: u32,
    pieces: Seq<Piece>,
    blob: Seq<u8>,
    crc: u32,
) -> Seq<u8> {
    let start = table_end(pieces.len());
    header_bytes(packed_header(entry, page_size, pieces.len(), crc)) + segment_table_bytes(
        placed(start, pieces),
    ) + body_bytes(start, pieces, blob)
}

/// The image never ends before it starts.
pub proof fn lemma_cursor_at_least_start(start: nat, pieces: Seq<Piece>)
    ensures
        start <= cursor_after(start, pieces),
    decreases pieces.len(),
{
    if pieces.len() > 0 {
        lemma_cursor_at_least_start(start, pieces.drop_last());
    }
}

/// Laying out more pieces never makes the image shorter.
pub proof fn lemma_cursor_monotone(start: nat, pieces: Seq<Piece>, n: int)
    requires
        0 <= n <= pieces.len(),
    ensures
        cursor_after(start, pieces.subrange(0, n)) <= cursor_after(start, pieces),
    decreases pieces.len() - n,
{
    if n < pieces.len() {
        let next = pieces.subrange(0, n + 1);
        assert(next.drop_last() =~= pieces.subrange(0, n));
        lemma_cursor_monotone(start, pieces, n + 1);
    } else {
        assert(pieces.subrange(0, n) =~= pieces);
    }
}

/// Every piece ends inside the image.
pub proof fn lemma_piece_ends_inside(start: nat, pieces: Seq<Piece>, k: int)
    requires
        0 <= k < pieces.len(),
    ensures
        offset_of(start, pieces, k) + pieces[k].file_size <= cursor_after(start, pieces),
        start <= offset_of(start, pieces, k),
{
    let upto = pieces.subrange(0, k + 1);
    assert(upto.drop_last() =~= pieces.subrange(0, k));
    assert(upto.last() == pieces[k]);
    lemma_cursor_monotone(start, pieces, k + 1);
    lemma_cursor_at_least_start(start, pieces.subrange(0, k));
}

/// The body is as long as the layout says.
pub proof fn lemma_body_len(start: nat, pieces: Seq<Piece>, blob: Seq<u8>)
    requires
        pieces_in_bounds(pieces, blob.len()),
    ensures
        body_bytes(start, pieces, blob).len() == cursor_after(start, pieces) - start,
    decreases pieces.len(),
{
    if pieces.len() > 0 {
        assert(pieces_in_bounds(pieces.drop_last(), blob.len())) by {
            assert forall|k: int| 0 <= k < pieces.drop_last().len() implies (
            #[trigger] pieces.drop_last()[k]).src_off + pieces.drop_last()[k].file_size
                <= blob.len() by {
                assert(pieces.drop_last()[k] == pieces[k]);
            }
        }
        lemma_body_len(start, pieces.drop_last(), blob);
        lemma_cursor_at_least_start(start, pieces.drop_last());
        assert(pieces.last() == pieces[pieces.len() - 1]);
    }
}

/// The body of a prefix of the pieces is a prefix of the body.
pub proof fn lemma_body_prefix(start: nat, pieces: Seq<Piece>, blob: Seq<u8>, n: int)
    requires
        pieces_in_bounds(pieces, blob.len()),
        0 <= n <= pieces.len(),
    ensures
        body_bytes(start, pieces.subrange(0, n), blob).len() <= body_bytes(start, pieces, blob).len(),
        body_bytes(start, pieces, blob).subrange(
            0,
            body_bytes(start, pieces.subrange(0, n), blob).len() as int,
        ) == body_bytes(start, pieces.subrange(0, n), blob),
    decreases pieces.len() - n,
{
    if n < pieces.len() {
        let next = pieces.subrange(0, n + 1);
        assert(next.drop_last() =~= pieces.subrange(0, n));
        lemma_body_prefix(start, pieces, blob, n + 1);
        let whole = body_bytes(start, pieces, blob);
        let b1 = body_bytes(start, next, blob);
        let b0 = body_bytes(start, pieces.subrange(0, n), blob);
        assert(b1.subrange(0, b0.len() as int) =~= b0);
        assert(whole.subrange(0, b0.len() as int) =~= whole.subrange(0, b1.len() as int).subrange(
            0,
            b0.len() as int,
        ));
    } else {
        assert(pieces.subrange(0, n) =~= pieces);
        assert(body_bytes(start, pieces, blob).subrange(
            0,
            body_bytes(start, pieces, blob).len() as int,
        ) =~= body_bytes(start, pieces, blob));
    }
}

/// The bytes of piece `k` stand in the body where the layout puts them.
pub proof fn lemma_body_holds_piece(start: nat, pieces: Seq<Piece>, blob: Seq<u8>, k: int)
    requires
        pieces_in_bounds(pieces, blob.len()),
        0 <= k < pieces.len(),
    ensures
        start <= offset_of(start, pieces, k),
        offset_of(start, pieces, k) - start + pieces[k].file_size <= body_bytes(
            start,
            pieces,
            blob,
        ).len(),
        body_bytes(start, pieces, blob).subrange(
            offset_of(start, pieces, k) - start,
            offset_of(start, pieces, k) - start + pieces[k].file_size,
        ) == blob.subrange(pieces[k].src_off as int, pieces[k].src_off + pieces[k].file_size),
{
    let upto = pieces.subrange(0, k + 1);
    let before = pieces.subrange(0, k);
    assert(upto.drop_last() =~= before);
    assert(upto.last() == pieces[k]);
    assert(pieces_in_bounds(upto, blob.len())) by {
        assert forall|j: int| 0 <= j < upto.len() implies (#[trigger] upto[j]).src_off
            + upto[j].file_size <= blob.len() by {
            assert(upto[j] == pieces[j]);
        }
    }
    assert(pieces_in_bounds(before, blob.len())) by {
        assert forall|j: int| 0 <= j < before.len() implies (#[trigger] before[j]).src_off
            + before[j].file_size <= blob.len() by {
            assert(before[j] == pieces[j]);
        }
    }
    lemma_body_prefix(start, pieces, blob, k + 1);
    lemma_body_len(start, upto, blob);
    lemma_body_len(start, before, blob);
    lemma_body_len(start, pieces, blob);
    lemma_piece_ends_inside(start, pieces, k);
    lemma_cursor_at_least_start(start, before);
    let whole = body_bytes(start, pieces, blob);
    let b1 = body_bytes(start, upto, blob);
    let data = blob.subrange(pieces[k].src_off as int, pieces[k].src_off + pieces[k].file_size);
    let lo = offset_of(start, pieces, k) - start;
    assert(b1.subrange(lo, lo + pieces[k].file_size) =~= data);
    assert(whole.subrange(lo, lo + pieces[k].file_size) =~= whole.subrange(0, b1.len() as int).subrange(
        lo,
        lo + pieces[k].file_size,
    ));
}

/// Rounds `x` up to a multiple of `a`, or gives `None` where that is more
/// than 64 bits hold.
pub fn align_up(x: u64, a: u64) -> (r: Option<u64>)
    requires
        a > 0,
    ensures
        match r {
            Some(y) => y == (x + a - 1) / (a as int) * a,
            None => (x + a - 1) / (a as int) * a > u64::MAX,
        },
{
    let rem = x % a;
    proof {
        lemma_round_up(x as int, a as int);
    }
    if rem == 0 {
        Some(x)
    } else {
        x.checked_add(a - rem)
    }
}

/// Rounding up by division is adding what is missing to the next multiple.
proof fn lemma_round_up(x: int, a: int)
    requires
        x >= 0,
        a > 0,
    ensures
        (x + a - 1) / a * a == if x % a == 0 {
            x
        } else {
            x + a - x % a
        },
{
    vstd::arithmetic::div_mod::lemma_fundamental_div_mod(x, a);
    let q = x / a;
    let r = x % a;
    assert(a * q == q * a) by (nonlinear_arith);
    assert((q + 1) * a == q * a + a) by (nonlinear_arith);
    if r == 0 {
        vstd::arithmetic::div_mod::lemma_fundamental_div_mod_converse(x + a - 1, a, q, a - 1);
    } else {
        vstd::arithmetic::div_mod::lemma_fundamental_div_mod_converse(x + a - 1, a, q + 1, r - 1);
    }
}

/// Lays the pieces out behind the header and the segment table, and gives
/// the segment table and the length of the image.
pub fn layout(pieces: &Vec<Piece>) -> (r: Result<(Vec<RtoskSegment>, usize), PackError>)
    ensures
        match r {
            Ok((segs, total)) => {
                &&& layout_fits(pieces@)
                &&& segs@ == placed(table_end(pieces@.len()), pieces@)
                &&& total == cursor_after(table_end(pieces@.len()), pieces@)
            },
            Err(e) => !layout_fits(pieces@) && e == PackError::ImageTooLarge,
        },
{
    let n = pieces.len();
    if n > 107374181 {
        return Err(PackError::ImageTooLarge);
    }
    let limit: u64 = usize::MAX as u64;
    let start: u64 = 40 + 40 * (n as u64);
    if start > limit {
        proof {
            lemma_cursor_at_least_start(table_end(pieces@.len()), pieces@);
        }
        return Err(PackError::ImageTooLarge);
    }
    let mut segs: Vec<RtoskSegment> = Vec::new();
    let mut cursor: u64 = start;
    let mut i: usize = 0;
    while i < n
        invariant
            i <= n,
            n == pieces.len(),
            start == table_end(pieces@.len()),
            limit == usize::MAX,
            cursor <= limit,
            cursor == cursor_after(start as nat, pieces@.subrange(0, i as int)),
            segs@.len() == i,
            forall|k: int| 0 <= k < i ==> segs@[k] == placed_segment(start as nat, pieces@, k),
        decreases n - i,
    {
        let piece = pieces[i];
        proof {
            let next = pieces@.subrange(0, i + 1);
            assert(next.drop_last() =~= pieces@.subrange(0, i as int));
            assert(next.last() == piece);
            lemma_cursor_monotone(start as nat, pieces@, i + 1);
        }
        let aligned = match align_up(cursor, 16) {
            Some(a) => a,
            None => {
                return Err(PackError::ImageTooLarge);
            },
        };
        if aligned > limit || piece.file_size > limit - aligned {
            return Err(PackError::ImageTooLarge);
        }
        segs.push(
            RtoskSegment {
                file_offset: aligned,
                memory_addr: piece.memory_addr,
                memory_size: piece.memory_size,
                file_size: piece.file_size,
                flags: piece.flags,
            },
        );
        cursor = aligned + piece.file_size;
        i = i + 1;
    }
    assert(pieces@.subrange(0, n as int) =~= pieces@);
    assert(segs@ =~= placed(start as nat, pieces@));
    Ok((segs, cursor as usize))
}

/// Appends `n` zero bytes.
fn push_zeros(out: &mut Vec<u8>, n: usize)
    ensures
        final(out)@ == old(out)@ + zeros(n as nat),
{
    let mut i: usize = 0;
    while i < n
        invariant
            i <= n,
            out@ == old(out)@ + zeros(i as nat),
        decreases n - i,
    {
        out.push(0);
        assert(out@ =~= old(out)@ + zeros((i + 1) as nat));
        i = i + 1;
    }
}

/// Appends `src[from..from + len]`.
fn push_range(out: &mut Vec<u8>, src: &[u8], from: usize, len: usize)
    requires
        from + len <= src.len(),
    ensures
        final(out)@ == old(out)@ + src@.subrange(from as int, from + len),
{
    let mut i: usize = 0;
    while i < len
        invariant
            i <= len,
            from + len <= src.len(),
            out@ == old(out)@ + src@.subrange(from as int, from + i),
        decreases len - i,
    {
        out.push(src[from + i]);
        assert(out@ =~= old(out)@ + src@.subrange(from as int, from + i + 1));
        i = i + 1;
    }
}

/// Writes the image: the header, the segment table, and the pieces with
/// their padding.
pub fn build_image(
    blob: &[u8],
    header: &RtoskHeader,
    segs: &Vec<RtoskSegment>,
    pieces: &Vec<Piece>,
) -> (out: Vec<u8>)
    requires
        header.magic@.len() == 5,
        layout_fits(pieces@),
        pieces_in_bounds(pieces@, blob@.len()),
        segs@ == placed(table_end(pieces@.len()), pieces@),
    ensures
        out@ == header_bytes(header@) + segment_table_bytes(segs@) + body_bytes(
            table_end(pieces@.len()),
            pieces@,
            blob@,
        ),
        out@.len() == cursor_after(table_end(pieces@.len()), pieces@),
{
    let ghost start = table_end(pieces@.len());
    let blob_len = blob.len();
    let mut out: Vec<u8> = Vec::new();
    header.encode(&mut out);
    let ghost head = header_bytes(header@);
    assert(out@ =~= head);
    let mut i: usize = 0;
    while i < segs.len()
        invariant
            i <= segs.len(),
            out@ == head + segment_table_bytes(segs@.subrange(0, i as int)),
        decreases segs.len() - i,
    {
        let seg = segs[i];
        seg.encode(&mut out);
        proof {
            let next = segs@.subrange(0, i + 1);
            assert(next.drop_last() =~= segs@.subrange(0, i as int));
            assert(next.last() == seg);
            assert(out@ =~= head + segment_table_bytes(next));
        }
        i = i + 1;
    }
    assert(segs@.subrange(0, i as int) =~= segs@);
    let ghost front = head + segment_table_bytes(segs@);
    proof {
        lemma_segment_table_len(segs@);
        assert(front.len() == start);
    }
    assert(out@ =~= front + body_bytes(start, pieces@.subrange(0, 0), blob@));
    let mut k: usize = 0;
    while k < pieces.len()
        invariant
            k <= pieces.len(),
            front.len() == start,
            start == table_end(pieces@.len()),
            blob_len == blob@.len(),
            layout_fits(pieces@),
            pieces_in_bounds(pieces@, blob@.len()),
            segs@ == placed(start, pieces@),
            out@ == front + body_bytes(start, pieces@.subrange(0, k as int), blob@),
            out@.len() == cursor_after(start, pieces@.subrange(0, k as int)),
        decreases pieces.len() - k,
    {
        let piece = pieces[k];
        let seg = segs[k];
        proof {
            let next = pieces@.subrange(0, k + 1);
            assert(next.drop_last() =~= pieces@.subrange(0, k as int));
            assert(next.last() == piece);
            lemma_cursor_monotone(start, pieces@, k + 1);
            assert(seg == placed_segment(start, pieces@, k as int));
            assert(piece == pieces@[k as int]);
            assert(piece.src_off + piece.file_size <= blob@.len());
        }
        let ghost before = out@;
        let pad: usize = (seg.file_offset - out.len() as u64) as usize;
        push_zeros(&mut out, pad);
        push_range(&mut out, blob, piece.src_off as usize, piece.file_size as usize);
        proof {
            let next = pieces@.subrange(0, k + 1);
            let prev = pieces@.subrange(0, k as int);
            assert(pad == align16(cursor_after(start, prev)) - cursor_after(start, prev));
            assert(out@ == before + zeros(pad as nat) + blob@.subrange(
                piece.src_off as int,
                piece.src_off + piece.file_size,
            ));
            assert(body_bytes(start, next, blob@) == body_bytes(start, prev, blob@) + zeros(
                pad as nat,
            ) + blob@.subrange(piece.src_off as int, piece.src_off + piece.file_size));
            assert(out@ =~= front + body_bytes(start, next, blob@));
        }
        k = k + 1;
    }
    assert(pieces@.subrange(0, k as int) =~= pieces@);
    out
}

} // verus!
