//! Packing colours into 32-bit pixels, and compositing one colour over
//! another.

use vstd::prelude::*;
use crate::framebuffer_info::FramebufferFormat;

verus! {

/// The pixel that holds the colour `(r, g, b)` in the format `fmt`: the
/// first channel of the format in the lowest byte, the top byte zero. A
/// format without pixel memory packs every colour to 0.
pub open spec fn packed(fmt: FramebufferFormat, r: u8, g: u8, b: u8) -> u32 {
    match fmt {
        FramebufferFormat::Rgb => (r as u32) | ((g as u32) << 8) | ((b as u32) << 16),
        FramebufferFormat::Bgr => (b as u32) | ((g as u32) << 8) | ((r as u32) << 16),
        FramebufferFormat::BltOnly => 0,
    }
}

/// The colour `(r, g, b)` that the pixel `px` holds in the format `fmt`. A
/// format without pixel memory is read as blue-green-red.
pub open spec fn unpacked(fmt: FramebufferFormat, px: u32) -> (u8, u8, u8) {
    match fmt {
        FramebufferFormat::Rgb => ((px & 0xFF) as u8, ((px >> 8) & 0xFF) as u8, ((px >> 16) & 0xFF) as u8),
        _ => (((px >> 16) & 0xFF) as u8, ((px >> 8) & 0xFF) as u8, (px & 0xFF) as u8),
    }
}

/// One channel of `src` over `dst` with opacity `a`:
/// `(src * a + dst * (255 - a) + 127) / 255`, with the division taken as
/// a multiplication by 257 and a shift by 16 bits.
pub open spec fn blend_channel(src: u8, dst: u8, a: u8) -> u8 {
    ((src as int * a as int + dst as int * (255 - a as int) + 127) * 257 / 65536) as u8
}

/// The pixel that results from drawing the colour `(r, g, b)` with opacity
/// `a` over the pixel `dst`: `dst` itself for opacity 0, the packed colour
/// for opacity 255, else each channel blended.
pub open spec fn blended(dst: u32, fmt: FramebufferFormat, r: u8, g: u8, b: u8, a: u8) -> u32 {
    if a == 0 {
        dst
    } else if a == 255 {
        packed(fmt, r, g, b)
    } else {
        let d = unpacked(fmt, dst);
        packed(fmt, blend_channel(r, d.0, a), blend_channel(g, d.1, a), blend_channel(b, d.2, a))
    }
}

/// Packs a colour into a pixel of the format `fmt`.
pub fn pack_rgb_fmt(fmt: FramebufferFormat, r: u8, g: u8, b: u8) -> (px: u32)
    ensures
        px == packed(fmt, r, g, b),
{
    match fmt {
        FramebufferFormat::Rgb => (r as u32) | ((g as u32) << 8) | ((b as u32) << 16),
        FramebufferFormat::Bgr => (b as u32) | ((g as u32) << 8) | ((r as u32) << 16),
        FramebufferFormat::BltOnly => 0,
    }
}

/// Takes the colour out of a pixel of the format `fmt`.
pub fn unpack_rgb_fmt(fmt: FramebufferFormat, px: u32) -> (rgb: (u8, u8, u8))
    ensures
        rgb == unpacked(fmt, px),
{
    let lo: u32 = px & 0xFF;
    let mid: u32 = (px >> 8) & 0xFF;
    let hi: u32 = (px >> 16) & 0xFF;
    assert(lo < 256 && mid < 256 && hi < 256) by (bit_vector)
        requires
            lo == px & 0xFF,
            mid == (px >> 8) & 0xFF,
            hi == (px >> 16) & 0xFF,
    ;
    match fmt {
        FramebufferFormat::Rgb => (lo as u8, mid as u8, hi as u8),
        _ => (hi as u8, mid as u8, lo as u8),
    }
}

/// The blended channel is a byte.
proof fn lemma_blend_in_range(src: u8, dst: u8, a: u8)
    ensures
        0 <= (src as int * a as int + dst as int * (255 - a as int) + 127) * 257 / 65536 <= 255,
        0 <= src as int * a as int + dst as int * (255 - a as int) + 127 <= 65152,
{
    let x = src as int * a as int + dst as int * (255 - a as int) + 127;
    assert(0 <= x <= 65152) by (nonlinear_arith)
        requires
            x == src as int * a as int + dst as int * (255 - a as int) + 127,
            0 <= src as int <= 255,
            0 <= dst as int <= 255,
            0 <= a as int <= 255,
    ;
}

/// Blends one channel.
fn blend_one(src: u8, dst: u8, a: u8) -> (out: u8)
    ensures
        out == blend_channel(src, dst, a),
{
    proof {
        lemma_blend_in_range(src, dst, a);
        assert(src as int * a as int <= 65025 && dst as int * (255 - a as int) <= 65025)
            by (nonlinear_arith)
            requires
                0 <= src as int <= 255,
                0 <= dst as int <= 255,
                0 <= a as int <= 255,
        ;
        assert(0 <= src as int * a as int && 0 <= dst as int * (255 - a as int)) by (nonlinear_arith)
            requires
                0 <= src as int <= 255,
                0 <= dst as int <= 255,
                0 <= a as int <= 255,
        ;
    }
    let inv: u32 = 255 - a as u32;
    let x: u32 = (src as u32) * (a as u32) + (dst as u32) * inv + 127;
    (x * 257 / 65536) as u8
}

/// Draws the colour `(r, g, b)` with opacity `a` over the pixel `dst`.
pub fn blend_over(dst: u32, fmt: FramebufferFormat, r: u8, g: u8, b: u8, a: u8) -> (out: u32)
    ensures
        out == blended(dst, fmt, r, g, b, a),
{
    if a == 0 {
        return dst;
    }
    if a == 255 {
        return pack_rgb_fmt(fmt, r, g, b);
    }
    let (dr, dg, db) = unpack_rgb_fmt(fmt, dst);
    pack_rgb_fmt(fmt, blend_one(r, dr, a), blend_one(g, dg, a), blend_one(b, db, a))
}

/// A fully transparent colour leaves the pixel as it is; a fully opaque one
/// replaces it by the packed colour.
pub proof fn lemma_blend_extremes(dst: u32, fmt: FramebufferFormat, r: u8, g: u8, b: u8)
    ensures
        blended(dst, fmt, r, g, b, 0) == dst,
        blended(dst, fmt, r, g, b, 255) == packed(fmt, r, g, b),
{
}

/// Unpacking is the inverse of packing in both formats with pixel memory.
pub proof fn lemma_unpack_packed(fmt: FramebufferFormat, r: u8, g: u8, b: u8)
    requires
        fmt != FramebufferFormat::BltOnly,
    ensures
        unpacked(fmt, packed(fmt, r, g, b)) == (r, g, b),
{
    let lo: u32 = match fmt {
        FramebufferFormat::Rgb => r as u32,
        _ => b as u32,
    };
    let mid: u32 = g as u32;
    let hi: u32 = match fmt {
        FramebufferFormat::Rgb => b as u32,
        _ => r as u32,
    };
    let px: u32 = lo | (mid << 8) | (hi << 16);
    assert(px & 0xFF == lo && (px >> 8) & 0xFF == mid && (px >> 16) & 0xFF == hi) by (bit_vector)
        requires
            px == lo | (mid << 8) | (hi << 16),
            lo < 256,
            mid < 256,
            hi < 256,
    ;
}

/// A packed pixel has a zero top byte, and packing what a pixel with a zero
/// top byte unpacks to gives the pixel back.
pub proof fn lemma_pack_unpacked(fmt: FramebufferFormat, px: u32)
    requires
        fmt != FramebufferFormat::BltOnly,
        px < 0x100_0000,
    ensures
        ({
            let c = unpacked(fmt, px);
            packed(fmt, c.0, c.1, c.2) == px
        }),
{
    let lo: u32 = px & 0xFF;
    let mid: u32 = (px >> 8) & 0xFF;
    let hi: u32 = (px >> 16) & 0xFF;
    assert(lo < 256 && mid < 256 && hi < 256 && (lo | (mid << 8) | (hi << 16)) == px) by (bit_vector)
        requires
            lo == px & 0xFF,
            mid == (px >> 8) & 0xFF,
            hi == (px >> 16) & 0xFF,
            px < 0x100_0000,
    ;
    assert((lo as u8) as u32 == lo);
    assert((mid as u8) as u32 == mid);
    assert((hi as u8) as u32 == hi);
}

} // verus!
