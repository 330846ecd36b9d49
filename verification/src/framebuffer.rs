//! The kernel's drawing surface.
//!
//! A `Framebuffer` holds the geometry of the screen and its pixels: `stride`
//! 32-bit pixels for each of `height` rows, of which the first `width` are
//! visible. Pixel `(x, y)` is element `y * stride + x` of the store and
//! stands at the address `base + (y * stride + x) * 4`.
//!
//! No primitive draws outside the visible part, and none draws at all in a
//! format without pixel memory.

use vstd::prelude::*;
use crate::boot_info::BootInfo;
use crate::framebuffer_info::FramebufferFormat;
use crate::pixel::{blend_over, blended, pack_rgb_fmt, packed};

verus! {

/// The screen: its geometry and its pixels.
#[derive(Debug)]
pub struct Framebuffer {
    /// Address of the first pixel.
    pub base: u64,
    /// Visible pixels per row.
    pub width: u32,
    /// Rows.
    pub height: u32,
    /// Pixels from one row to the next.
    pub stride: u32,
    /// Channel order.
    pub format: FramebufferFormat,
    /// The pixels, row by row, `stride` to a row.
    pub pixels: Vec<u32>,
}

/// The place of pixel `(x, y)` in a store with `stride` pixels to a row.
pub open spec fn index_of(stride: int, x: int, y: int) -> int {
    y * stride + x
}

/// The distance covered by `w` pixels from `x` on, cut off at `limit`.
pub open spec fn clip_span(x: u32, w: u32, limit: u32) -> nat {
    if x >= limit {
        0
    } else if x + w >= limit {
        (limit - x) as nat
    } else {
        w as nat
    }
}

/// A pixel of a row lies inside the store.
pub proof fn lemma_index_in_bounds(stride: int, height: int, x: int, y: int)
    requires
        0 <= x < stride,
        0 <= y < height,
    ensures
        0 <= index_of(stride, x, y) < stride * height,
{
    assert(0 <= y * stride + x < stride * height) by (nonlinear_arith)
        requires
            0 <= x < stride,
            0 <= y < height,
    ;
}

/// Two different pixels have different places.
pub proof fn lemma_index_distinct(stride: int, x1: int, y1: int, x2: int, y2: int)
    requires
        0 <= x1 < stride,
        0 <= x2 < stride,
        0 <= y1,
        0 <= y2,
        x1 != x2 || y1 != y2,
    ensures
        index_of(stride, x1, y1) != index_of(stride, x2, y2),
{
    assert(y1 * stride + x1 != y2 * stride + x2) by (nonlinear_arith)
        requires
            0 <= x1 < stride,
            0 <= x2 < stride,
            0 <= y1,
            0 <= y2,
            x1 != x2 || y1 != y2,
    ;
}

/// A framebuffer as a mathematical value: its geometry and the sequence of
/// its pixels.
pub struct FbView {
    pub base: u64,
    pub width: u32,
    pub height: u32,
    pub stride: u32,
    pub format: FramebufferFormat,
    pub pixels: Seq<u32>,
}

impl View for Framebuffer {
    type V = FbView;

    open spec fn view(&self) -> FbView {
        FbView {
            base: self.base,
            width: self.width,
            height: self.height,
            stride: self.stride,
            format: self.format,
            pixels: self.pixels@,
        }
    }
}

impl FbView {
    /// Validity: the visible part of a row fits the row, and there is a
    /// pixel for every place of every row.
    pub open spec fn wf(self) -> bool {
        self.width <= self.stride && self.pixels.len() == self.stride as int * self.height as int
    }

    /// The pixel at `(x, y)`.
    pub open spec fn pixel(self, x: int, y: int) -> u32 {
        self.pixels[index_of(self.stride as int, x, y)]
    }

    /// Whether `(x, y)` is a pixel of the store, visible or padding.
    pub open spec fn holds(self, x: int, y: int) -> bool {
        0 <= x < self.stride && 0 <= y < self.height
    }

    /// Whether `(x, y)` is a visible pixel.
    pub open spec fn visible(self, x: int, y: int) -> bool {
        0 <= x < self.width && 0 <= y < self.height
    }

    /// Whether the format lets the primitives draw.
    pub open spec fn drawable(self) -> bool {
        self.format != FramebufferFormat::BltOnly
    }

    /// The same framebuffer with the pixel at each `(x, y)` given by `f`.
    pub open spec fn painted(self, f: spec_fn(int, int) -> u32) -> FbView {
        FbView {
            pixels: Seq::new(
                self.pixels.len(),
                |i: int| f(i % (self.stride as int), i / (self.stride as int)),
            ),
            ..self
        }
    }
}

/// Every place of the store is the place of one pixel: of the pixel in the
/// column that is the remainder, and the row that is the quotient, of the
/// place by the stride.
pub proof fn lemma_place_is_pixel(stride: int, height: int, i: int)
    requires
        0 <= i < stride * height,
        0 < stride,
    ensures
        0 <= i % stride < stride,
        0 <= i / stride < height,
        index_of(stride, i % stride, i / stride) == i,
{
    vstd::arithmetic::div_mod::lemma_fundamental_div_mod(i, stride);
    vstd::arithmetic::div_mod::lemma_mod_bound(i, stride);
    let q = i / stride;
    let r = i % stride;
    assert(i == stride * q + r);
    assert(stride * q == q * stride) by (nonlinear_arith);
    assert(0 <= q < height) by (nonlinear_arith)
        requires
            i == stride * q + r,
            0 <= r < stride,
            0 <= i < stride * height,
            0 < stride,
    ;
}

/// A framebuffer whose pixels are given, pixel by pixel, by `f` is the
/// framebuffer painted with `f`.
pub proof fn lemma_painted(before: FbView, after: FbView, f: spec_fn(int, int) -> u32)
    requires
        before.wf(),
        after.pixels.len() == before.pixels.len(),
        after.base == before.base,
        after.width == before.width,
        after.height == before.height,
        after.stride == before.stride,
        after.format == before.format,
        forall|x: int, y: int| before.holds(x, y) ==> #[trigger] after.pixel(x, y) == f(x, y),
    ensures
        after == before.painted(f),
{
    let stride = before.stride as int;
    let height = before.height as int;
    assert forall|i: int| 0 <= i < after.pixels.len() implies after.pixels[i] == before.painted(
        f,
    ).pixels[i] by {
        if stride > 0 {
            lemma_place_is_pixel(stride, height, i);
            assert(after.pixel(i % stride, i / stride) == f(i % stride, i / stride));
        } else {
            assert(stride * height == 0) by (nonlinear_arith)
                requires
                    stride == 0,
            ;
        }
    }
    assert(after.pixels =~= before.painted(f).pixels);
}

impl Framebuffer {
    /// Validity: the visible part of a row fits the row, and the store holds
    /// every row.
    pub open spec fn wf(&self) -> bool {
        self.width <= self.stride && self.pixels@.len() == self.stride as int * self.height as int
    }

    /// The pixel at `(x, y)`.
    pub open spec fn pixel(&self, x: int, y: int) -> u32 {
        self.pixels@[index_of(self.stride as int, x, y)]
    }

    /// The address of the pixel at `(x, y)`.
    pub open spec fn addr_of(&self, x: int, y: int) -> int {
        self.base + 4 * index_of(self.stride as int, x, y)
    }

    /// Whether `(x, y)` is a pixel of the store, visible or padding.
    pub open spec fn holds(&self, x: int, y: int) -> bool {
        0 <= x < self.stride && 0 <= y < self.height
    }

    /// Whether `(x, y)` is a visible pixel.
    pub open spec fn visible(&self, x: int, y: int) -> bool {
        0 <= x < self.width && 0 <= y < self.height
    }

    /// Whether the format lets the primitives draw.
    pub open spec fn drawable(&self) -> bool {
        self.format != FramebufferFormat::BltOnly
    }

    /// Whether `other` has the geometry of this framebuffer.
    pub open spec fn same_shape(&self, other: &Framebuffer) -> bool {
        &&& self.base == other.base
        &&& self.width == other.width
        &&& self.height == other.height
        &&& self.stride == other.stride
        &&& self.format == other.format
        &&& self.pixels@.len() == other.pixels@.len()
    }

    /// Whether the visible pixel `(px, py)` lies in the rectangle of `w` by
    /// `h` pixels at `(x, y)`.
    pub open spec fn in_rect(&self, x: u32, y: u32, w: u32, h: u32, px: int, py: int) -> bool {
        self.visible(px, py) && x <= px < x + w && y <= py < y + h
    }

    /// The number of pixels of the rectangle that are visible.
    pub open spec fn clip_area(&self, x: u32, y: u32, w: u32, h: u32) -> nat {
        clip_span(x, w, self.width) * clip_span(y, h, self.height)
    }

    /// The width and height of the part of a `w` by `h` image that is drawn.
    pub open spec fn blit_size(&self, w: u32, h: u32) -> (int, int) {
        (
            if self.width < w {
                self.width as int
            } else {
                w as int
            },
            if self.height < h {
                self.height as int
            } else {
                h as int
            },
        )
    }

    /// The pixel at which the top left corner of a `w` by `h` image is
    /// drawn, so that what is drawn of it stands in the middle.
    pub open spec fn blit_origin(&self, w: u32, h: u32) -> (int, int) {
        ((self.width - self.blit_size(w, h).0) / 2, (self.height - self.blit_size(w, h).1) / 2)
    }

    /// The index in the image's bytes of the source of pixel `(px, py)`.
    pub open spec fn blit_source(&self, w: u32, h: u32, px: int, py: int) -> int {
        ((py - self.blit_origin(w, h).1) * w + (px - self.blit_origin(w, h).0)) * 4
    }

    /// Whether blitting a `w` by `h` image of `len` bytes draws the pixel
    /// `(px, py)`: it lies in the centred part, and its four source bytes
    /// are there.
    pub open spec fn blit_covers(&self, len: nat, w: u32, h: u32, px: int, py: int) -> bool {
        let size = self.blit_size(w, h);
        let origin = self.blit_origin(w, h);
        &&& origin.0 <= px < origin.0 + size.0
        &&& origin.1 <= py < origin.1 + size.1
        &&& self.blit_source(w, h, px, py) + 3 < len
    }

    /// What blitting draws at `(px, py)`: the packed source colour, or with
    /// `use_alpha` the source colour over the pixel that was there.
    pub open spec fn blit_value(
        &self,
        rgba: Seq<u8>,
        w: u32,
        h: u32,
        use_alpha: bool,
        px: int,
        py: int,
    ) -> u32 {
        let s = self.blit_source(w, h, px, py);
        if use_alpha {
            blended(self.pixel(px, py), self.format, rgba[s], rgba[s + 1], rgba[s + 2], rgba[s + 3])
        } else {
            packed(self.format, rgba[s], rgba[s + 1], rgba[s + 2])
        }
    }

    /// Takes the geometry from the boot information and starts with every
    /// pixel zero. `None` where the geometry is not that of a framebuffer:
    /// the row is shorter than its visible part, or the store would be
    /// larger than the machine can address.
    pub fn from_bootinfo(bi: &BootInfo) -> (made: Option<Framebuffer>)
        ensures
            made is Some <==> bi.framebuffer.width <= bi.framebuffer.stride && bi.framebuffer.stride
                as int * bi.framebuffer.height as int <= usize::MAX,
            made is Some ==> {
                let fb = made->0;
                &&& fb.wf()
                &&& fb.base == bi.framebuffer.base
                &&& fb.width == bi.framebuffer.width
                &&& fb.height == bi.framebuffer.height
                &&& fb.stride == bi.framebuffer.stride
                &&& fb.format == bi.framebuffer.format
                &&& forall|i: int| 0 <= i < fb.pixels@.len() ==> fb.pixels@[i] == 0
            },
    {
        let info = bi.framebuffer;
        if info.width > info.stride {
            return None;
        }
        proof {
            assert(0 <= info.stride as int * info.height as int <= 0xFFFF_FFFE_0000_0001)
                by (nonlinear_arith)
                requires
                    0 <= info.stride as int <= 0xFFFF_FFFF,
                    0 <= info.height as int <= 0xFFFF_FFFF,
            ;
        }
        let count: u64 = (info.stride as u64) * (info.height as u64);
        if count > usize::MAX as u64 {
            return None;
        }
        let mut pixels: Vec<u32> = Vec::new();
        let mut i: usize = 0;
        while i < count as usize
            invariant
                i <= count,
                count <= usize::MAX,
                pixels@.len() == i,
                forall|k: int| 0 <= k < i ==> pixels@[k] == 0,
            decreases count - i,
        {
            pixels.push(0);
            i = i + 1;
        }
        Some(
            Framebuffer {
                base: info.base,
                width: info.width,
                height: info.height,
                stride: info.stride,
                format: info.format,
                pixels,
            },
        )
    }

    /// Decides whether the framebuffer is valid.
    pub fn is_wf(&self) -> (ok: bool)
        ensures
            ok == self.wf(),
    {
        proof {
            assert(0 <= self.stride as int * self.height as int <= 0xFFFF_FFFE_0000_0001)
                by (nonlinear_arith)
                requires
                    0 <= self.stride as int <= 0xFFFF_FFFF,
                    0 <= self.height as int <= 0xFFFF_FFFF,
            ;
        }
        let count: u64 = (self.stride as u64) * (self.height as u64);
        self.width <= self.stride && self.pixels.len() as u64 == count
    }

    /// Packs a colour in the framebuffer's format.
    pub fn pack_rgb(&self, r: u8, g: u8, b: u8) -> (px: u32)
        ensures
            px == packed(self.format, r, g, b),
    {
        pack_rgb_fmt(self.format, r, g, b)
    }

    /// The address of the first pixel of row `y`: `base + y * stride * 4`,
    /// in 64-bit arithmetic.
    pub fn row_ptr(&self, y: u32) -> (addr: u64)
        ensures
            addr == (self.base + y as int * self.stride as int * 4) % 0x1_0000_0000_0000_0000,
    {
        proof {
            assert(0 <= y as int * self.stride as int <= 0xFFFF_FFFE_0000_0001) by (nonlinear_arith)
                requires
                    0 <= y as int <= 0xFFFF_FFFF,
                    0 <= self.stride as int <= 0xFFFF_FFFF,
            ;
        }
        let offset: u128 = (y as u128) * (self.stride as u128) * 4;
        ((self.base as u128 + offset) % 0x1_0000_0000_0000_0000) as u64
    }

    /// The place of pixel `(x, y)` in the store.
    fn place(&self, x: u32, y: u32) -> (i: usize)
        requires
            self.wf(),
            self.holds(x as int, y as int),
        ensures
            i == index_of(self.stride as int, x as int, y as int),
            i < self.pixels@.len(),
    {
        let count = self.pixels.len();
        proof {
            lemma_index_in_bounds(self.stride as int, self.height as int, x as int, y as int);
            assert(0 <= y as int * self.stride as int) by (nonlinear_arith)
                requires
                    0 <= y as int,
                    0 <= self.stride as int,
            ;
        }
        (y as usize) * (self.stride as usize) + (x as usize)
    }

    /// Reads the pixel at `(x, y)`; `None` outside the visible part.
    pub fn get_pixel(&self, x: u32, y: u32) -> (px: Option<u32>)
        requires
            self.wf(),
        ensures
            px == if self.visible(x as int, y as int) {
                Some(self.pixel(x as int, y as int))
            } else {
                None
            },
    {
        if x >= self.width || y >= self.height {
            return None;
        }
        let i = self.place(x, y);
        Some(self.pixels[i])
    }

    /// Stores `color` at `(x, y)`, visible or padding, whatever the format.
    fn store(&mut self, x: u32, y: u32, color: u32)
        requires
            old(self).wf(),
            old(self).holds(x as int, y as int),
        ensures
            final(self).wf(),
            final(self).same_shape(old(self)),
            final(self).pixels@ == old(self).pixels@.update(
                index_of(old(self).stride as int, x as int, y as int),
                color,
            ),
            forall|px: int, py: int|
                old(self).holds(px, py) ==> #[trigger] final(self).pixel(px, py) == if px == x && py
                    == y {
                    color
                } else {
                    old(self).pixel(px, py)
                },
    {
        let i = self.place(x, y);
        self.pixels[i] = color;
        proof {
            assert forall|px: int, py: int| old(self).holds(px, py) implies #[trigger] self.pixel(
                px,
                py,
            ) == if px == x && py == y {
                color
            } else {
                old(self).pixel(px, py)
            } by {
                lemma_index_in_bounds(self.stride as int, self.height as int, px, py);
                if px != x || py != y {
                    lemma_index_distinct(self.stride as int, px, py, x as int, y as int);
                }
            }
        }
    }

    /// Sets the visible pixel `(x, y)` to `color`. Outside the visible part,
    /// and in a format without pixel memory, nothing changes.
    pub fn put_pixel(&mut self, x: u32, y: u32, color: u32)
        requires
            old(self).wf(),
        ensures
            final(self).wf(),
            final(self).same_shape(old(self)),
            final(self).pixels@ == if old(self).drawable() && old(self).visible(
                x as int,
                y as int,
            ) {
                old(self).pixels@.update(index_of(old(self).stride as int, x as int, y as int), color)
            } else {
                old(self).pixels@
            },
            old(self).drawable() && old(self).visible(x as int, y as int) ==> final(self).pixel(
                x as int,
                y as int,
            ) == color,
            forall|px: int, py: int|
                old(self).holds(px, py) ==> #[trigger] final(self).pixel(px, py) == if old(self).drawable()
                    && old(self).visible(x as int, y as int) && px == x && py == y {
                    color
                } else {
                    old(self).pixel(px, py)
                },
    {
        if !self.format.is_memory_accessible() || x >= self.width || y >= self.height {
            return ;
        }
        self.store(x, y, color);
    }

    /// Fills the visible part of the rectangle of `w` by `h` pixels at
    /// `(x, y)` with `color`, and says how many pixels were written. In a
    /// format without pixel memory nothing is written.
    pub fn fill_rect(&mut self, x: u32, y: u32, w: u32, h: u32, color: u32) -> (written: u64)
        requires
            old(self).wf(),
        ensures
            final(self).wf(),
            final(self).same_shape(old(self)),
            old(self).drawable() ==> written == old(self).clip_area(x, y, w, h),
            !old(self).drawable() ==> written == 0 && final(self).pixels@ == old(self).pixels@,
            forall|px: int, py: int|
                old(self).holds(px, py) ==> #[trigger] final(self).pixel(px, py) == if old(self).drawable()
                    && old(self).in_rect(x, y, w, h, px, py) {
                    color
                } else {
                    old(self).pixel(px, py)
                },
    {
        if !self.format.is_memory_accessible() {
            return 0;
        }
        let x1: u32 = if x < self.width { x } else { self.width };
        let y1: u32 = if y < self.height { y } else { self.height };
        let x2: u32 = if w < self.width - x1 { x1 + w } else { self.width };
        let y2: u32 = if h < self.height - y1 { y1 + h } else { self.height };
        let span: u64 = (x2 - x1) as u64;
        proof {
            assert(span == clip_span(x, w, self.width));
            assert(y2 - y1 == clip_span(y, h, self.height));
            assert forall|px: int, py: int|
                self.in_rect(x, y, w, h, px, py) == (x1 <= px < x2 && y1 <= py < y2) by {}
        }
        let mut written: u64 = 0;
        let mut yy: u32 = y1;
        while yy < y2
            invariant
                y1 <= yy <= y2,
                x1 <= x2 <= self.width,
                y2 <= self.height,
                span == x2 - x1,
                self.wf(),
                self.same_shape(old(self)),
                written == (yy - y1) * span,
                forall|px: int, py: int|
                    self.holds(px, py) ==> #[trigger] self.pixel(px, py) == if x1 <= px < x2 && y1
                        <= py < yy {
                        color
                    } else {
                        old(self).pixel(px, py)
                    },
            decreases y2 - yy,
        {
            let mut xx: u32 = x1;
            while xx < x2
                invariant
                    y1 <= yy < y2,
                    x1 <= xx <= x2,
                    x2 <= self.width,
                    y2 <= self.height,
                    span == x2 - x1,
                    self.wf(),
                    self.same_shape(old(self)),
                    written == (yy - y1) * span + (xx - x1),
                    forall|px: int, py: int|
                        self.holds(px, py) ==> #[trigger] self.pixel(px, py) == if (x1 <= px < x2
                            && y1 <= py < yy) || (py == yy && x1 <= px < xx) {
                            color
                        } else {
                            old(self).pixel(px, py)
                        },
                decreases x2 - xx,
            {
                proof {
                    assert((yy - y1) * span + (xx - x1) < 0xFFFF_FFFF * 0x1_0000_0000)
                        by (nonlinear_arith)
                        requires
                            0 <= yy - y1 < 0xFFFF_FFFF,
                            0 <= xx - x1 < span,
                            span <= 0xFFFF_FFFF,
                    ;
                }
                self.store(xx, yy, color);
                written = written + 1;
                xx = xx + 1;
            }
            proof {
                assert((yy + 1 - y1) * span == (yy - y1) * span + span) by (nonlinear_arith);
            }
            yy = yy + 1;
        }
        proof {
            assert((y2 - y1) * span == clip_span(x, w, self.width) * clip_span(y, h, self.height))
                by (nonlinear_arith)
                requires
                    span == clip_span(x, w, self.width),
                    y2 - y1 == clip_span(y, h, self.height),
            ;
        }
        written
    }

    /// Fills every visible pixel with the colour `(r, g, b)`; padding is not
    /// touched. In a format without pixel memory nothing changes.
    pub fn clear(&mut self, r: u8, g: u8, b: u8)
        requires
            old(self).wf(),
        ensures
            final(self).wf(),
            final(self).same_shape(old(self)),
            !old(self).drawable() ==> final(self).pixels@ == old(self).pixels@,
            forall|px: int, py: int|
                old(self).holds(px, py) ==> #[trigger] final(self).pixel(px, py) == if old(self).drawable()
                    && old(self).visible(px, py) {
                    packed(old(self).format, r, g, b)
                } else {
                    old(self).pixel(px, py)
                },
    {
        let fill = pack_rgb_fmt(self.format, r, g, b);
        let width = self.width;
        let height = self.height;
        self.fill_rect(0, 0, width, height, fill);
    }

    /// Draws a `w` by `h` image of red-green-blue-alpha bytes in the middle
    /// of the screen, unscaled, cut off at the screen's edges and at the end
    /// of `rgba`. With `use_alpha` each source pixel is drawn over what is
    /// there with its own opacity; without, it replaces it and the fourth
    /// byte is ignored. In a format without pixel memory nothing changes.
    pub fn blit_rgba_centered_noscale(&mut self, rgba: &[u8], w: u32, h: u32, use_alpha: bool)
        requires
            old(self).wf(),
        ensures
            final(self).wf(),
            final(self).same_shape(old(self)),
            !old(self).drawable() ==> final(self).pixels@ == old(self).pixels@,
            forall|px: int, py: int|
                old(self).holds(px, py) ==> #[trigger] final(self).pixel(px, py) == if old(self).drawable()
                    && old(self).blit_covers(rgba@.len(), w, h, px, py) {
                    old(self).blit_value(rgba@, w, h, use_alpha, px, py)
                } else {
                    old(self).pixel(px, py)
                },
    {
        if !self.format.is_memory_accessible() || w == 0 || h == 0 {
            return ;
        }
        let fmt = self.format;
        let draw_w: u32 = if self.width < w { self.width } else { w };
        let draw_h: u32 = if self.height < h { self.height } else { h };
        let off_x: u32 = (self.width - draw_w) / 2;
        let off_y: u32 = (self.height - draw_h) / 2;
        let len: usize = rgba.len();
        let avail: usize = len / 4;
        let mut y: u32 = 0;
        while y < draw_h
            invariant
                y <= draw_h,
                fmt == self.format,
                self.drawable(),
                draw_w == self.blit_size(w, h).0,
                draw_h == self.blit_size(w, h).1,
                off_x == self.blit_origin(w, h).0,
                off_y == self.blit_origin(w, h).1,
                off_x + draw_w <= self.width,
                off_y + draw_h <= self.height,
                len == rgba@.len(),
                avail == len / 4,
                self.wf(),
                self.same_shape(old(self)),
                forall|px: int, py: int|
                    self.holds(px, py) ==> #[trigger] self.pixel(px, py) == if py < off_y + y
                        && old(self).blit_covers(rgba@.len(), w, h, px, py) {
                        old(self).blit_value(rgba@, w, h, use_alpha, px, py)
                    } else {
                        old(self).pixel(px, py)
                    },
            decreases draw_h - y,
        {
            let mut x: u32 = 0;
            while x < draw_w
                invariant
                    y < draw_h,
                    x <= draw_w,
                    fmt == self.format,
                    self.drawable(),
                    draw_w == self.blit_size(w, h).0,
                    draw_h == self.blit_size(w, h).1,
                    off_x == self.blit_origin(w, h).0,
                    off_y == self.blit_origin(w, h).1,
                    off_x + draw_w <= self.width,
                    off_y + draw_h <= self.height,
                    len == rgba@.len(),
                avail == len / 4,
                    self.wf(),
                    self.same_shape(old(self)),
                    forall|px: int, py: int|
                        self.holds(px, py) ==> #[trigger] self.pixel(px, py) == if (py < off_y + y
                            || (py == off_y + y && px < off_x + x)) && old(self).blit_covers(
                            rgba@.len(),
                            w,
                            h,
                            px,
                            py,
                        ) {
                            old(self).blit_value(rgba@, w, h, use_alpha, px, py)
                        } else {
                            old(self).pixel(px, py)
                        },
                decreases draw_w - x,
            {
                proof {
                    assert(0 <= y as int * w as int <= 0xFFFF_FFFE_0000_0001) by (nonlinear_arith)
                        requires
                            0 <= y as int <= 0xFFFF_FFFF,
                            0 <= w as int <= 0xFFFF_FFFF,
                    ;
                    assert(self.blit_source(w, h, off_x + x, off_y + y) == (y as int * w as int + x) * 4);
                }
                let p: u128 = (y as u128) * (w as u128) + (x as u128);
                if p < avail as u128 {
                    let s: usize = (p as usize) * 4;
                    let dx: u32 = off_x + x;
                    let dy: u32 = off_y + y;
                    let value = if use_alpha {
                        let i = self.place(dx, dy);
                        let dst = self.pixels[i];
                        assert(dst == old(self).pixel(dx as int, dy as int)) by {
                            assert(self.holds(dx as int, dy as int));
                            assert(self.pixel(dx as int, dy as int) == old(self).pixel(
                                dx as int,
                                dy as int,
                            ));
                        }
                        blend_over(dst, fmt, rgba[s], rgba[s + 1], rgba[s + 2], rgba[s + 3])
                    } else {
                        pack_rgb_fmt(fmt, rgba[s], rgba[s + 1], rgba[s + 2])
                    };
                    assert(old(self).blit_covers(rgba@.len(), w, h, dx as int, dy as int));
                    assert(value == old(self).blit_value(rgba@, w, h, use_alpha, dx as int, dy as int));
                    self.store(dx, dy, value);
                } else {
                    assert(!old(self).blit_covers(rgba@.len(), w, h, off_x + x, off_y + y));
                }
                x = x + 1;
            }
            proof {
                assert forall|px: int, py: int| self.holds(px, py) implies #[trigger] self.pixel(
                    px,
                    py,
                ) == if py < off_y + y + 1 && old(self).blit_covers(rgba@.len(), w, h, px, py) {
                    old(self).blit_value(rgba@, w, h, use_alpha, px, py)
                } else {
                    old(self).pixel(px, py)
                } by {}
            }
            y = y + 1;
        }
    }

    /// Draws a `w` by `h` image over the middle of the screen, each source
    /// pixel with its own opacity.
    pub fn blit_rgba_centered_alpha(&mut self, rgba: &[u8], w: u32, h: u32)
        requires
            old(self).wf(),
        ensures
            final(self).wf(),
            final(self).same_shape(old(self)),
            !old(self).drawable() ==> final(self).pixels@ == old(self).pixels@,
            forall|px: int, py: int|
                old(self).holds(px, py) ==> #[trigger] final(self).pixel(px, py) == if old(self).drawable()
                    && old(self).blit_covers(rgba@.len(), w, h, px, py) {
                    old(self).blit_value(rgba@, w, h, true, px, py)
                } else {
                    old(self).pixel(px, py)
                },
    {
        self.blit_rgba_centered_noscale(rgba, w, h, true);
    }
}

} // verus!
