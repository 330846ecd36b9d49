//! A text console on the framebuffer: a grid of cells of 6 by 8 pixels, each
//! showing one character as a glyph of 5 by 7 pixels.
//!
//! The console holds where the next character goes and in which colours.
//! Every operation is described as a function from the console and the
//! framebuffer before to the console and the framebuffer after.

use vstd::prelude::*;
use crate::framebuffer::{Framebuffer, FbView, index_of, lemma_index_in_bounds, lemma_painted};
use crate::pixel::packed;

verus! {

/// Width of a cell in pixels: a glyph and one pixel of spacing.
pub const CELL_W: u32 = 6;

/// Height of a cell in pixels: a glyph and one pixel of spacing.
pub const CELL_H: u32 = 8;

/// The glyphs of the characters from space to `~`, seven rows each, top row
/// first; in a row, bit 4 is the left pixel. A character without a glyph of
/// its own has that of `?`.
pub const GLYPHS: [[u8; 7]; 95] = [
    [0b00000, 0b00000, 0b00000, 0b00000, 0b00000, 0b00000, 0b00000],
    [0b00100, 0b00100, 0b00100, 0b00100, 0b00100, 0b00000, 0b00100],
    [0b01010, 0b01010, 0b00000, 0b00000, 0b00000, 0b00000, 0b00000],
    [0b01010, 0b11111, 0b01010, 0b01010, 0b11111, 0b01010, 0b01010],
    [0b01110, 0b10001, 0b00010, 0b00100, 0b00100, 0b00000, 0b00100],
    [0b11001, 0b11010, 0b00100, 0b01000, 0b10110, 0b00110, 0b00000],
    [0b01110, 0b10001, 0b00010, 0b00100, 0b00100, 0b00000, 0b00100],
    [0b00100, 0b00100, 0b00000, 0b00000, 0b00000, 0b00000, 0b00000],
    [0b00010, 0b00100, 0b01000, 0b01000, 0b01000, 0b00100, 0b00010],
    [0b01000, 0b00100, 0b00010, 0b00010, 0b00010, 0b00100, 0b01000],
    [0b00000, 0b10101, 0b01110, 0b11111, 0b01110, 0b10101, 0b00000],
    [0b00000, 0b00100, 0b00100, 0b11111, 0b00100, 0b00100, 0b00000],
    [0b00000, 0b00000, 0b00000, 0b00000, 0b00000, 0b00110, 0b00100],
    [0b00000, 0b00000, 0b00000, 0b11111, 0b00000, 0b00000, 0b00000],
    [0b00000, 0b00000, 0b00000, 0b00000, 0b00000, 0b00110, 0b00110],
    [0b00001, 0b00010, 0b00100, 0b01000, 0b10000, 0b00000, 0b00000],
    [0b01110, 0b10001, 0b10011, 0b10101, 0b11001, 0b10001, 0b01110],
    [0b00100, 0b01100, 0b00100, 0b00100, 0b00100, 0b00100, 0b01110],
    [0b01110, 0b10001, 0b00001, 0b00010, 0b00100, 0b01000, 0b11111],
    [0b11110, 0b00001, 0b00001, 0b00110, 0b00001, 0b00001, 0b11110],
    [0b00010, 0b00110, 0b01010, 0b10010, 0b11111, 0b00010, 0b00010],
    [0b11111, 0b10000, 0b11110, 0b00001, 0b00001, 0b10001, 0b01110],
    [0b00110, 0b01000, 0b10000, 0b11110, 0b10001, 0b10001, 0b01110],
    [0b11111, 0b00001, 0b00010, 0b00100, 0b01000, 0b01000, 0b01000],
    [0b01110, 0b10001, 0b10001, 0b01110, 0b10001, 0b10001, 0b01110],
    [0b01110, 0b10001, 0b10001, 0b01111, 0b00001, 0b00010, 0b01100],
    [0b00000, 0b00110, 0b00110, 0b00000, 0b00110, 0b00110, 0b00000],
    [0b00000, 0b00110, 0b00110, 0b00000, 0b00110, 0b00100, 0b00000],
    [0b00010, 0b00100, 0b01000, 0b01000, 0b01000, 0b00100, 0b00010],
    [0b00000, 0b11111, 0b00000, 0b11111, 0b00000, 0b00000, 0b00000],
    [0b01000, 0b00100, 0b00010, 0b00010, 0b00010, 0b00100, 0b01000],
    [0b01110, 0b10001, 0b00010, 0b00100, 0b00100, 0b00000, 0b00100],
    [0b01110, 0b10001, 0b00001, 0b01101, 0b10101, 0b10101, 0b01110],
    [0b00100, 0b01010, 0b10001, 0b11111, 0b10001, 0b10001, 0b10001],
    [0b11110, 0b10001, 0b10001, 0b11110, 0b10001, 0b10001, 0b11110],
    [0b01110, 0b10001, 0b10000, 0b10000, 0b10000, 0b10001, 0b01110],
    [0b11110, 0b10001, 0b10001, 0b10001, 0b10001, 0b10001, 0b11110],
    [0b11111, 0b10000, 0b10000, 0b11110, 0b10000, 0b10000, 0b11111],
    [0b11111, 0b10000, 0b10000, 0b11110, 0b10000, 0b10000, 0b10000],
    [0b01110, 0b10001, 0b10000, 0b10111, 0b10001, 0b10001, 0b01110],
    [0b10001, 0b10001, 0b10001, 0b11111, 0b10001, 0b10001, 0b10001],
    [0b01110, 0b00100, 0b00100, 0b00100, 0b00100, 0b00100, 0b01110],
    [0b00111, 0b00010, 0b00010, 0b00010, 0b10010, 0b10010, 0b01100],
    [0b10001, 0b10010, 0b10100, 0b11000, 0b10100, 0b10010, 0b10001],
    [0b10000, 0b10000, 0b10000, 0b10000, 0b10000, 0b10000, 0b11111],
    [0b10001, 0b11011, 0b10101, 0b10101, 0b10001, 0b10001, 0b10001],
    [0b10001, 0b11001, 0b10101, 0b10011, 0b10001, 0b10001, 0b10001],
    [0b01110, 0b10001, 0b10001, 0b10001, 0b10001, 0b10001, 0b01110],
    [0b11110, 0b10001, 0b10001, 0b11110, 0b10000, 0b10000, 0b10000],
    [0b01110, 0b10001, 0b10001, 0b10001, 0b10101, 0b10010, 0b01101],
    [0b11110, 0b10001, 0b10001, 0b11110, 0b10100, 0b10010, 0b10001],
    [0b01111, 0b10000, 0b10000, 0b01110, 0b00001, 0b00001, 0b11110],
    [0b11111, 0b00100, 0b00100, 0b00100, 0b00100, 0b00100, 0b00100],
    [0b10001, 0b10001, 0b10001, 0b10001, 0b10001, 0b10001, 0b01110],
    [0b10001, 0b10001, 0b10001, 0b10001, 0b01010, 0b01010, 0b00100],
    [0b10001, 0b10001, 0b10101, 0b10101, 0b10101, 0b11011, 0b10001],
    [0b10001, 0b10001, 0b01010, 0b00100, 0b01010, 0b10001, 0b10001],
    [0b10001, 0b10001, 0b01010, 0b00100, 0b00100, 0b00100, 0b00100],
    [0b11111, 0b00001, 0b00010, 0b00100, 0b01000, 0b10000, 0b11111],
    [0b00110, 0b00100, 0b00100, 0b00100, 0b00100, 0b00100, 0b00110],
    [0b10000, 0b01000, 0b00100, 0b00010, 0b00001, 0b00000, 0b00000],
    [0b01100, 0b00100, 0b00100, 0b00100, 0b00100, 0b00100, 0b01100],
    [0b00100, 0b01010, 0b10001, 0b00000, 0b00000, 0b00000, 0b00000],
    [0b00000, 0b00000, 0b00000, 0b00000, 0b00000, 0b00000, 0b11111],
    [0b01000, 0b00100, 0b00000, 0b00000, 0b00000, 0b00000, 0b00000],
    [0b00000, 0b00000, 0b01110, 0b00001, 0b01111, 0b10001, 0b01111],
    [0b10000, 0b10000, 0b11110, 0b10001, 0b10001, 0b10001, 0b11110],
    [0b00000, 0b00000, 0b01110, 0b10000, 0b10000, 0b10000, 0b01110],
    [0b00001, 0b00001, 0b01111, 0b10001, 0b10001, 0b10001, 0b01111],
    [0b00000, 0b00000, 0b01110, 0b10001, 0b11111, 0b10000, 0b01110],
    [0b00110, 0b01001, 0b01000, 0b11100, 0b01000, 0b01000, 0b01000],
    [0b00000, 0b00000, 0b01111, 0b10001, 0b10001, 0b01111, 0b00001],
    [0b10000, 0b10000, 0b11110, 0b10001, 0b10001, 0b10001, 0b10001],
    [0b00100, 0b00000, 0b01100, 0b00100, 0b00100, 0b00100, 0b01110],
    [0b00010, 0b00000, 0b00110, 0b00010, 0b00010, 0b10010, 0b01100],
    [0b10000, 0b10010, 0b10100, 0b11000, 0b10100, 0b10010, 0b10001],
    [0b01100, 0b00100, 0b00100, 0b00100, 0b00100, 0b00100, 0b01110],
    [0b00000, 0b00000, 0b11010, 0b10101, 0b10101, 0b10101, 0b10101],
    [0b00000, 0b00000, 0b11110, 0b10001, 0b10001, 0b10001, 0b10001],
    [0b00000, 0b00000, 0b01110, 0b10001, 0b10001, 0b10001, 0b01110],
    [0b00000, 0b00000, 0b11110, 0b10001, 0b10001, 0b11110, 0b10000],
    [0b00000, 0b00000, 0b01111, 0b10001, 0b10001, 0b01111, 0b00001],
    [0b00000, 0b00000, 0b10110, 0b11001, 0b10000, 0b10000, 0b10000],
    [0b00000, 0b00000, 0b01111, 0b10000, 0b01110, 0b00001, 0b11110],
    [0b01000, 0b01000, 0b11100, 0b01000, 0b01000, 0b01001, 0b00110],
    [0b00000, 0b00000, 0b10001, 0b10001, 0b10001, 0b10011, 0b01101],
    [0b00000, 0b00000, 0b10001, 0b10001, 0b01010, 0b01010, 0b00100],
    [0b00000, 0b00000, 0b10001, 0b10101, 0b10101, 0b10101, 0b01010],
    [0b00000, 0b00000, 0b10001, 0b01010, 0b00100, 0b01010, 0b10001],
    [0b00000, 0b00000, 0b10001, 0b10001, 0b01111, 0b00001, 0b01110],
    [0b00000, 0b00000, 0b11111, 0b00010, 0b00100, 0b01000, 0b11111],
    [0b00010, 0b00100, 0b00100, 0b01000, 0b00100, 0b00100, 0b00010],
    [0b00100, 0b00100, 0b00100, 0b00100, 0b00100, 0b00100, 0b00100],
    [0b01000, 0b00100, 0b00100, 0b00010, 0b00100, 0b00100, 0b01000],
    [0b00000, 0b01101, 0b10110, 0b00000, 0b00000, 0b00000, 0b00000],
];

/// The state of the console.
#[derive(Clone, Copy, Debug, PartialEq, Eq)]
pub struct Console {
    /// Top left corner of the grid, in pixels.
    pub origin_x: u32,
    pub origin_y: u32,
    /// The cell of the next character, in cells from the origin.
    pub cursor_x: u32,
    pub cursor_y: u32,
    /// Pixel of the glyphs.
    pub fg: u32,
    /// Pixel of the cells' background; `None` leaves what is there.
    pub bg: Option<u32>,
}

/// The place of a character's glyph in the table: the glyph of `?` for
/// every character outside the table.
pub open spec fn glyph_index(ch: char) -> int {
    if 32 <= ch as u32 <= 126 {
        ch as u32 - 32
    } else {
        31
    }
}

/// The seven rows of the glyph of `ch`.
pub open spec fn glyph_of(ch: char) -> Seq<u8> {
    GLYPHS@[glyph_index(ch)]@
}

/// The value of the bit of column `col` in a row, the left column being 0.
pub open spec fn weight(col: int) -> int {
    if col == 0 {
        16
    } else if col == 1 {
        8
    } else if col == 2 {
        4
    } else if col == 3 {
        2
    } else {
        1
    }
}

/// Whether the glyph with the rows `rows` has a pixel in column `col` of
/// row `row`.
pub open spec fn glyph_bit(rows: Seq<u8>, col: int, row: int) -> bool {
    0 <= row < 7 && 0 <= col < 5 && (rows[row] as int / weight(col)) % 2 == 1
}

impl Console {
    /// Validity: the cursor can move on by one cell.
    pub open spec fn wf(self) -> bool {
        self.cursor_x < u32::MAX && self.cursor_y < u32::MAX
    }

    /// Left edge of the cursor's cell, in pixels.
    pub open spec fn pixel_x(self) -> int {
        self.origin_x + self.cursor_x * 6
    }

    /// Top edge of the cursor's cell, in pixels.
    pub open spec fn pixel_y(self) -> int {
        self.origin_y + self.cursor_y * 8
    }

    /// The console with the cursor at the start of the next line.
    pub open spec fn next_line(self) -> Console {
        Console { cursor_x: 0, cursor_y: (self.cursor_y + 1) as u32, ..self }
    }

    /// The console with the cursor one cell further right.
    pub open spec fn next_cell(self) -> Console {
        Console { cursor_x: (self.cursor_x + 1) as u32, ..self }
    }

    /// The console with the cursor at `(x, y)`.
    pub open spec fn cursor_at(self, x: u32, y: u32) -> Console {
        Console { cursor_x: x, cursor_y: y, ..self }
    }
}

/// The pixel at `(x, y)` after the glyph `rows` was drawn in the cursor's
/// cell: the foreground where the glyph has a pixel, else the background in
/// the cell if there is one, else what was there. Only visible pixels
/// change, and none in a format without pixel memory.
pub open spec fn cell_pixel(v: FbView, con: Console, rows: Seq<u8>, x: int, y: int) -> u32 {
    let x0 = con.pixel_x();
    let y0 = con.pixel_y();
    if !v.drawable() || !v.visible(x, y) {
        v.pixel(x, y)
    } else if glyph_bit(rows, x - x0, y - y0) {
        con.fg
    } else if con.bg is Some && x0 <= x < x0 + 6 && y0 <= y < y0 + 8 {
        con.bg->0
    } else {
        v.pixel(x, y)
    }
}

/// The framebuffer after the glyph `rows` was drawn in the cursor's cell.
pub open spec fn cell_drawn(v: FbView, con: Console, rows: Seq<u8>) -> FbView {
    v.painted(|x: int, y: int| cell_pixel(v, con, rows, x, y))
}

/// The pixel at `(x, y)` after the screen was filled with the background.
pub open spec fn cleared_pixel(v: FbView, bg: Option<u32>, x: int, y: int) -> u32 {
    if v.drawable() && bg is Some && v.visible(x, y) {
        bg->0
    } else {
        v.pixel(x, y)
    }
}

/// The framebuffer after the screen was filled with the background, if
/// there is one.
pub open spec fn cleared(v: FbView, bg: Option<u32>) -> FbView {
    v.painted(|x: int, y: int| cleared_pixel(v, bg, x, y))
}

/// The pixel at `(x, y)` after the rows were moved up by `dy`: the pixel
/// `dy` rows below, padding included; in the `dy` rows at the bottom the
/// background, if there is one, where the pixel is visible.
pub open spec fn scrolled_pixel(v: FbView, dy: int, bg: Option<u32>, x: int, y: int) -> u32 {
    if !v.drawable() {
        v.pixel(x, y)
    } else if y < v.height - dy {
        v.pixel(x, y + dy)
    } else if bg is Some && x < v.width {
        bg->0
    } else {
        v.pixel(x, y)
    }
}

/// The console and framebuffer after scrolling up by `rows` lines. Where
/// that is the whole screen or more, the screen is cleared and the cursor
/// goes to the origin.
pub open spec fn scroll_spec(con: Console, v: FbView, rows: u32) -> (Console, FbView) {
    let dy = rows * 8;
    if rows == 0 {
        (con, v)
    } else if dy >= v.height {
        (con.cursor_at(0, 0), cleared(v, con.bg))
    } else {
        (con, v.painted(|x: int, y: int| scrolled_pixel(v, dy, con.bg, x, y)))
    }
}

/// The console and framebuffer after the cursor's line was brought onto
/// the screen: if the line ends below the screen, the screen scrolls up by
/// one line and the cursor goes up by one.
pub open spec fn settle_spec(con: Console, v: FbView) -> (Console, FbView) {
    if con.pixel_y() + 8 <= v.height {
        (con, v)
    } else {
        let s = scroll_spec(con, v, 1);
        (
            s.0.cursor_at(
                s.0.cursor_x,
                if s.0.cursor_y > 0 {
                    (s.0.cursor_y - 1) as u32
                } else {
                    0
                },
            ),
            s.1,
        )
    }
}

/// The console and framebuffer after the character `ch` was put: a line
/// feed starts the next line, a carriage return does nothing, and every
/// other character is drawn in the cursor's cell, or at the start of the
/// next line if the cell would end beyond the screen's right edge, and
/// moves the cursor on by one cell. Then the cursor's line is brought onto
/// the screen.
pub open spec fn putc_spec(con: Console, v: FbView, ch: char) -> (Console, FbView) {
    if ch == '\n' {
        settle_spec(con.next_line(), v)
    } else if ch == '\r' {
        settle_spec(con, v)
    } else {
        let at = if con.pixel_x() + 6 > v.width {
            con.next_line()
        } else {
            con
        };
        settle_spec(at.next_cell(), cell_drawn(v, at, glyph_of(ch)))
    }
}

/// The console and framebuffer after the characters of `s` were put one
/// after the other.
pub open spec fn typed(con: Console, v: FbView, s: Seq<char>) -> (Console, FbView)
    decreases s.len(),
{
    if s.len() == 0 {
        (con, v)
    } else {
        let before = typed(con, v, s.drop_last());
        putc_spec(before.0, before.1, s.last())
    }
}

/// A character outside the table has the glyph of `?`.
pub proof fn lemma_unknown_glyph(ch: char)
    requires
        !(32 <= ch as u32 <= 126),
    ensures
        glyph_of(ch) == glyph_of('?'),
{
}

/// The glyph of `ch`: seven rows of five pixels.
pub fn glyph_5x7(ch: char) -> (rows: [u8; 7])
    ensures
        rows@ == glyph_of(ch),
{
    let code = ch as u32;
    let i: usize = if 32 <= code && code <= 126 { (code - 32) as usize } else { 31 };
    GLYPHS[i]
}

impl Console {
    /// A console at the top left of the screen, with the colours packed in
    /// the framebuffer's format.
    pub fn new(fb: &Framebuffer, fg_rgb: (u8, u8, u8), bg_rgb: Option<(u8, u8, u8)>) -> (con: Console)
        ensures
            con.wf(),
            con.origin_x == 0 && con.origin_y == 0 && con.cursor_x == 0 && con.cursor_y == 0,
            con.fg == packed(fb.format, fg_rgb.0, fg_rgb.1, fg_rgb.2),
            con.bg == match bg_rgb {
                Some(c) => Some(packed(fb.format, c.0, c.1, c.2)),
                None => None::<u32>,
            },
    {
        let fg = fb.pack_rgb(fg_rgb.0, fg_rgb.1, fg_rgb.2);
        let bg = match bg_rgb {
            Some(c) => Some(fb.pack_rgb(c.0, c.1, c.2)),
            None => None,
        };
        Console { origin_x: 0, origin_y: 0, cursor_x: 0, cursor_y: 0, fg, bg }
    }

    /// Decides whether the console is valid.
    pub fn is_wf(&self) -> (ok: bool)
        ensures
            ok == self.wf(),
    {
        self.cursor_x < u32::MAX && self.cursor_y < u32::MAX
    }

    /// Moves the grid's top left corner to `(x, y)` and the cursor to its
    /// first cell.
    pub fn set_origin(&mut self, x: u32, y: u32)
        ensures
            *final(self) == (Console { origin_x: x, origin_y: y, cursor_x: 0, cursor_y: 0, ..*old(self) }),
            final(self).wf(),
    {
        self.origin_x = x;
        self.origin_y = y;
        self.cursor_x = 0;
        self.cursor_y = 0;
    }

    /// Sets the colours, packed in the framebuffer's format.
    pub fn set_colors(&mut self, fb: &Framebuffer, fg: (u8, u8, u8), bg: Option<(u8, u8, u8)>)
        ensures
            *final(self) == (Console {
                fg: packed(fb.format, fg.0, fg.1, fg.2),
                bg: match bg {
                    Some(c) => Some(packed(fb.format, c.0, c.1, c.2)),
                    None => None::<u32>,
                },
                ..*old(self)
            }),
    {
        self.fg = fb.pack_rgb(fg.0, fg.1, fg.2);
        self.bg = match bg {
            Some(c) => Some(fb.pack_rgb(c.0, c.1, c.2)),
            None => None,
        };
    }

    /// Fills the screen with the background, if there is one, and moves the
    /// cursor to the first cell.
    pub fn clear(&mut self, fb: &mut Framebuffer)
        requires
            old(fb).wf(),
        ensures
            final(fb).wf(),
            final(fb)@ == cleared(old(fb)@, old(self).bg),
            *final(self) == old(self).cursor_at(0, 0),
    {
        self.wipe(fb);
        self.cursor_x = 0;
        self.cursor_y = 0;
    }

    /// Fills the screen with the background, if there is one.
    fn wipe(&self, fb: &mut Framebuffer)
        requires
            old(fb).wf(),
        ensures
            final(fb).wf(),
            final(fb)@ == cleared(old(fb)@, self.bg),
    {
        match self.bg {
            Some(bg) => {
                let width = fb.width;
                let height = fb.height;
                fb.fill_rect(0, 0, width, height, bg);
            },
            None => {},
        }
        proof {
            let bg = self.bg;
            let v = old(fb)@;
            assert forall|x: int, y: int| v.holds(x, y) implies #[trigger] fb@.pixel(x, y)
                == cleared_pixel(v, bg, x, y) by {
                assert(fb.pixel(x, y) == fb@.pixel(x, y));
                assert(old(fb).pixel(x, y) == v.pixel(x, y));
            }
            lemma_painted(v, fb@, |x: int, y: int| cleared_pixel(v, bg, x, y));
        }
    }

    /// Draws the glyph `rows` in the cursor's cell: the background of the
    /// cell first, if there is one, then the glyph's pixels.
    fn draw_cell(&self, fb: &mut Framebuffer, rows: [u8; 7])
        requires
            old(fb).wf(),
        ensures
            final(fb).wf(),
            final(fb)@ == cell_drawn(old(fb)@, *self, rows@),
    {
        let x0: u64 = self.origin_x as u64 + (self.cursor_x as u64) * 6;
        let y0: u64 = self.origin_y as u64 + (self.cursor_y as u64) * 8;
        let ghost v = old(fb)@;
        let ghost con = *self;
        match self.bg {
            Some(bg) => {
                if x0 <= u32::MAX as u64 && y0 <= u32::MAX as u64 {
                    fb.fill_rect(x0 as u32, y0 as u32, CELL_W, CELL_H, bg);
                }
            },
            None => {},
        }
        let ghost filled = fb@;
        proof {
            assert forall|x: int, y: int| v.holds(x, y) implies #[trigger] fb.pixel(x, y) == if v.drawable()
                && v.visible(x, y) && con.bg is Some && x0 <= x < x0 + 6 && y0 <= y < y0 + 8 {
                con.bg->0
            } else {
                v.pixel(x, y)
            } by {
                assert(old(fb).pixel(x, y) == v.pixel(x, y));
            }
        }
        let mut row: u32 = 0;
        while row < 7
            invariant
                row <= 7,
                x0 == con.pixel_x(),
                y0 == con.pixel_y(),
                con == *self,
                fb.wf(),
                fb.same_shape(old(fb)),
                v == old(fb)@,
                forall|x: int, y: int|
                    v.holds(x, y) ==> #[trigger] fb.pixel(x, y) == if v.drawable() && v.visible(x, y)
                        && glyph_bit(rows@, x - x0, y - y0) && y - y0 < row {
                        con.fg
                    } else if v.drawable() && v.visible(x, y) && con.bg is Some && x0 <= x < x0 + 6
                        && y0 <= y < y0 + 8 {
                        con.bg->0
                    } else {
                        v.pixel(x, y)
                    },
            decreases 7 - row,
        {
            let bits = rows[row as usize];
            let mut col: u32 = 0;
            while col < 5
                invariant
                    row < 7,
                    col <= 5,
                    bits == rows@[row as int],
                    x0 == con.pixel_x(),
                    y0 == con.pixel_y(),
                    con == *self,
                    fb.wf(),
                    fb.same_shape(old(fb)),
                    v == old(fb)@,
                    forall|x: int, y: int|
                        v.holds(x, y) ==> #[trigger] fb.pixel(x, y) == if v.drawable() && v.visible(
                            x,
                            y,
                        ) && glyph_bit(rows@, x - x0, y - y0) && (y - y0 < row || (y - y0 == row && x
                            - x0 < col)) {
                            con.fg
                        } else if v.drawable() && v.visible(x, y) && con.bg is Some && x0 <= x < x0
                            + 6 && y0 <= y < y0 + 8 {
                            con.bg->0
                        } else {
                            v.pixel(x, y)
                        },
                decreases 5 - col,
            {
                let w: u8 = if col == 0 {
                    16
                } else if col == 1 {
                    8
                } else if col == 2 {
                    4
                } else if col == 3 {
                    2
                } else {
                    1
                };
                let px: u64 = x0 + col as u64;
                let py: u64 = y0 + row as u64;
                if (bits / w) % 2 == 1 && px <= u32::MAX as u64 && py <= u32::MAX as u64 {
                    fb.put_pixel(px as u32, py as u32, self.fg);
                }
                col = col + 1;
            }
            row = row + 1;
        }
        proof {
            let r = rows@;
            assert forall|x: int, y: int| v.holds(x, y) implies #[trigger] fb@.pixel(x, y) == cell_pixel(
                v,
                con,
                r,
                x,
                y,
            ) by {
                assert(fb.pixel(x, y) == fb@.pixel(x, y));
            }
            lemma_painted(v, fb@, |x: int, y: int| cell_pixel(v, con, r, x, y));
        }
    }
}

/// Moving down by whole rows moves the place by that many strides.
proof fn lemma_index_shift(stride: int, x: int, y: int, dy: int)
    ensures
        index_of(stride, x, y + dy) == index_of(stride, x, y) + dy * stride,
{
    assert((y + dy) * stride + x == y * stride + x + dy * stride) by (nonlinear_arith);
}

/// The places of the rows above row `rows` come before the place
/// `rows * stride`, the others do not.
proof fn lemma_row_split(stride: int, x: int, y: int, rows: int)
    requires
        0 <= x < stride,
        0 <= y,
        0 <= rows,
    ensures
        y < rows <==> index_of(stride, x, y) < rows * stride,
{
    assert(y < rows <==> y * stride + x < rows * stride) by (nonlinear_arith)
        requires
            0 <= x < stride,
            0 <= y,
            0 <= rows,
    ;
}

impl Console {
    /// Scrolls the screen up by `rows` lines.
    fn scroll_up(&mut self, fb: &mut Framebuffer, rows: u32)
        requires
            old(fb).wf(),
        ensures
            final(fb).wf(),
            (*final(self), final(fb)@) == scroll_spec(*old(self), old(fb)@, rows),
    {
        if rows == 0 {
            return ;
        }
        let ghost v = old(fb)@;
        let ghost con = *old(self);
        let dy: u64 = (rows as u64) * 8;
        if dy >= fb.height as u64 {
            self.wipe(fb);
            self.cursor_x = 0;
            self.cursor_y = 0;
            return ;
        }
        let bg = self.bg;
        if !fb.format.is_memory_accessible() {
            proof {
                assert forall|x: int, y: int| v.holds(x, y) implies #[trigger] fb@.pixel(x, y)
                    == scrolled_pixel(v, dy as int, bg, x, y) by {}
                lemma_painted(v, fb@, |x: int, y: int| scrolled_pixel(v, dy as int, bg, x, y));
            }
            return ;
        }
        let total: usize = fb.pixels.len();
        let stride: usize = fb.stride as usize;
        let keep: u32 = fb.height - dy as u32;
        proof {
            assert(dy as int * stride as int + keep as int * stride as int == stride as int
                * fb.height as int) by (nonlinear_arith)
                requires
                    keep as int == fb.height as int - dy as int,
            ;
            assert(0 <= dy as int * stride as int && 0 <= keep as int * stride as int)
                by (nonlinear_arith)
                requires
                    0 <= dy as int,
                    0 <= keep as int,
                    0 <= stride as int,
            ;
        }
        let offset: usize = (dy as usize) * stride;
        let count: usize = (keep as usize) * stride;
        let mut i: usize = 0;
        while i < count
            invariant
                i <= count,
                offset + count == total,
                total == v.pixels.len(),
                fb.pixels@.len() == total,
                fb.same_shape(old(fb)),
                fb.wf(),
                forall|j: int| 0 <= j < i ==> fb.pixels@[j] == v.pixels[j + offset],
                forall|j: int| i <= j < total ==> fb.pixels@[j] == v.pixels[j],
            decreases count - i,
        {
            let moved = fb.pixels[i + offset];
            fb.pixels[i] = moved;
            i = i + 1;
        }
        let ghost moved = fb@;
        proof {
            assert forall|x: int, y: int| v.holds(x, y) implies #[trigger] fb.pixel(x, y) == if y
                < keep {
                v.pixel(x, y + dy)
            } else {
                v.pixel(x, y)
            } by {
                lemma_index_in_bounds(stride as int, fb.height as int, x, y);
                lemma_row_split(stride as int, x, y, keep as int);
                lemma_index_shift(stride as int, x, y, dy as int);
            }
        }
        match bg {
            Some(color) => {
                let width = fb.width;
                fb.fill_rect(0, keep, width, dy as u32, color);
            },
            None => {},
        }
        proof {
            assert forall|x: int, y: int| v.holds(x, y) implies #[trigger] fb@.pixel(x, y)
                == scrolled_pixel(v, dy as int, bg, x, y) by {
                assert(fb.pixel(x, y) == fb@.pixel(x, y));
            }
            lemma_painted(v, fb@, |x: int, y: int| scrolled_pixel(v, dy as int, bg, x, y));
        }
    }

    /// Brings the cursor's line onto the screen.
    fn settle(&mut self, fb: &mut Framebuffer)
        requires
            old(fb).wf(),
            old(self).cursor_x < u32::MAX,
        ensures
            final(fb).wf(),
            final(self).wf(),
            (*final(self), final(fb)@) == settle_spec(*old(self), old(fb)@),
    {
        let bottom: u64 = self.origin_y as u64 + (self.cursor_y as u64) * 8 + 8;
        if bottom <= fb.height as u64 {
            return ;
        }
        self.scroll_up(fb, 1);
        if self.cursor_y > 0 {
            self.cursor_y = self.cursor_y - 1;
        }
    }

    /// Puts one character at the cursor and moves the cursor on.
    pub fn putc(&mut self, fb: &mut Framebuffer, ch: char)
        requires
            old(self).wf(),
            old(fb).wf(),
        ensures
            final(self).wf(),
            final(fb).wf(),
            (*final(self), final(fb)@) == putc_spec(*old(self), old(fb)@, ch),
    {
        if ch == '\n' {
            self.cursor_x = 0;
            self.cursor_y = self.cursor_y + 1;
        } else if ch == '\r' {
        } else {
            let right: u64 = self.origin_x as u64 + (self.cursor_x as u64) * 6 + 6;
            if right > fb.width as u64 {
                self.cursor_x = 0;
                self.cursor_y = self.cursor_y + 1;
            }
            let rows = glyph_5x7(ch);
            self.draw_cell(fb, rows);
            self.cursor_x = self.cursor_x + 1;
        }
        self.settle(fb);
    }
}

impl Console {
    /// Puts the characters of `s` one after the other.
    pub fn write_str(&mut self, fb: &mut Framebuffer, s: &str)
        requires
            old(self).wf(),
            old(fb).wf(),
        ensures
            final(self).wf(),
            final(fb).wf(),
            (*final(self), final(fb)@) == typed(*old(self), old(fb)@, s@),
    {
        let ghost con = *old(self);
        let ghost v = old(fb)@;
        for ch in it: s.chars()
            invariant
                self.wf(),
                fb.wf(),
                it.seq() == s@,
                (*self, fb@) == typed(con, v, s@.subrange(0, it.index() as int)),
        {
            proof {
                let upto = s@.subrange(0, it.index() + 1);
                assert(upto.drop_last() =~= s@.subrange(0, it.index() as int));
                assert(upto.last() == ch);
            }
            self.putc(fb, ch);
        }
        assert(s@.subrange(0, s@.len() as int) =~= s@);
    }

    /// Puts the characters of `s` and starts the next line.
    pub fn write_line(&mut self, fb: &mut Framebuffer, s: &str)
        requires
            old(self).wf(),
            old(fb).wf(),
        ensures
            final(self).wf(),
            final(fb).wf(),
            (*final(self), final(fb)@) == putc_spec(
                typed(*old(self), old(fb)@, s@).0,
                typed(*old(self), old(fb)@, s@).1,
                '\n',
            ),
    {
        self.write_str(fb, s);
        self.putc(fb, '\n');
    }
}

} // verus!
