use crate::font::FONT;
use crate::font::FONT_FIRST;
use crate::raster::lemma_row_bound;
use crate::strings::spec_string_entry;
use crate::strings::string_entry;
use crate::video::Video;
use crate::video::VideoView;
use crate::video::NUM_PAGES;
use vstd::prelude::*;
use vstd::string::StringSliceAdditionalSpecFns;

verus! {

/// The rightmost character cell of a line.
pub const TEXT_LAST_COLUMN: u16 = 39;

/// The lowest row at which a glyph starts.
pub const TEXT_LAST_ROW: u16 = 192;

/// The line feed.
pub const LINE_FEED: u8 = 0x0a;

/// Whether a row of a glyph has a pixel in column `col`.
pub open spec fn spec_glyph_bit(bits: u8, col: int) -> bool {
    (bits << (col as u32)) & 0x80 != 0
}

impl VideoView {
    /// One row of a scaled glyph drawn on a page: the pixels of the row
    /// from `start` up to `upto`, each set to `color` where the glyph has
    /// a pixel.
    pub open spec fn glyph_row(self, page: int, start: int, upto: int, scale: int, bits: u8, color: u8) -> VideoView {
        VideoView {
            pages: self.pages.update(
                page,
                Seq::new(
                    self.pages[page].len(),
                    |k: int|
                        if start <= k < upto && spec_glyph_bit(bits, (k - start) / scale) {
                            color
                        } else {
                            self.pages[page][k]
                        },
                ),
            ),
            ..self
        }
    }

    /// The first `rows` pixel rows of a scaled glyph drawn on a page.
    /// `origin` is the place of the glyph's first pixel and `glyph` the
    /// place of its bitmap in the font.
    pub open spec fn glyph_rows(self, page: int, origin: int, scale: int, glyph: int, color: u8, rows: nat) -> VideoView
        decreases rows,
    {
        if rows == 0 {
            self
        } else {
            let j = rows - 1;
            let start = origin + j * self.width;
            self.glyph_rows(page, origin, scale, glyph, color, j as nat).glyph_row(
                page,
                start,
                start + 8 * scale,
                scale,
                FONT[glyph + j / scale],
                color,
            )
        }
    }

    /// Whether the glyph of character cell `x` that starts at row `y`
    /// lies on the page at this scale.
    pub open spec fn glyph_fits(self, x: u16, y: u16, scale: u32) -> bool {
        &&& x <= TEXT_LAST_COLUMN
        &&& y <= TEXT_LAST_ROW
        &&& scale > 0
        &&& x * 8 * scale + 8 * scale <= self.width
        &&& y * scale + 8 * scale <= self.height
    }

    /// One character drawn on page `page`, in character cell `x` and from
    /// row `y` on, scaled by `scale`. Nothing is drawn for a character
    /// without a glyph or for a glyph that does not lie on the page.
    pub open spec fn draw_char(self, character: u8, x: u16, y: u16, color: u8, page: usize, scale: u32) -> VideoView {
        if self.glyph_fits(x, y, scale) && FONT_FIRST <= character < 0x80 && page < NUM_PAGES {
            self.glyph_rows(
                page as int,
                x * 8 * scale + y * scale * self.width,
                scale as int,
                (character - FONT_FIRST) * 8,
                color,
                (8 * scale) as nat,
            )
        } else {
            self
        }
    }

    /// The characters of `text` from index `from` on, drawn on the draw
    /// page from cell `x` and row `y` on. A line feed goes eight rows
    /// down and back to cell `x_origin`.
    pub open spec fn draw_text(self, color: u8, x_origin: u16, x: u16, y: u16, text: Seq<u8>, from: int, scale: u32) -> VideoView
        decreases text.len() - from,
    {
        if from < 0 || from >= text.len() {
            self
        } else if text[from] == LINE_FEED {
            self.draw_text(color, x_origin, x_origin, y.wrapping_add(8), text, from + 1, scale)
        } else {
            self.draw_char(text[from], x, y, color, self.ptr1, scale).draw_text(
                color,
                x_origin,
                x.wrapping_add(1),
                y,
                text,
                from + 1,
                scale,
            )
        }
    }

    /// A text drawn on the draw page from cell `x` and row `y` on.
    pub open spec fn draw_string(self, color: u8, x: u16, y: u16, text: Seq<u8>, scale: u32) -> VideoView {
        self.draw_text(color, x, x, y, text, 0, scale)
    }

    /// The text with id `string_id` drawn on the draw page, if the table
    /// has such a text.
    pub open spec fn draw_string_id(self, color: u8, x: u16, y: u16, string_id: u16, scale: u32) -> VideoView {
        match spec_string_entry(string_id) {
            Some(text) => self.draw_string(color, x, y, text.spec_bytes(), scale),
            None => self,
        }
    }
}

impl Video {
    /// Draws one character on page `page_off`, in character cell `x` and
    /// from row `y` on, each pixel of the glyph `scale` pixels wide and
    /// high.
    pub fn draw_char(&mut self, character: u8, x: u16, y: u16, color: u8, page_off: usize, scale: u32)
        requires
            old(self).wf(),
        ensures
            final(self).wf(),
            final(self)@.same_frame(old(self)@),
            final(self)@ == old(self)@.draw_char(character, x, y, color, page_off, scale),
    {
        if !(x <= TEXT_LAST_COLUMN && y <= TEXT_LAST_ROW && scale > 0 && character >= FONT_FIRST && character < 0x80
            && page_off < NUM_PAGES) {
            return ;
        }
        assert(x as u64 * 8 * scale as u64 <= 39 * 8 * 0xffff_ffff) by (nonlinear_arith)
            requires
                x <= 39,
                scale <= 0xffff_ffff,
        ;
        assert(y as u64 * scale as u64 <= 192 * 0xffff_ffff) by (nonlinear_arith)
            requires
                y <= 192,
                scale <= 0xffff_ffff,
        ;
        proof {
            self@.lemma_dims();
        }
        let bs64: u64 = 8 * scale as u64;
        let col64: u64 = x as u64 * 8 * scale as u64;
        let top64: u64 = y as u64 * scale as u64;
        if col64 + bs64 > self.width as u64 || top64 + bs64 > self.height as u64 {
            return ;
        }
        let bs: usize = bs64 as usize;
        let col: usize = col64 as usize;
        let top: usize = top64 as usize;
        let sc: usize = scale as usize;
        let width: usize = self.width;
        let glyph: usize = (character - FONT_FIRST) as usize * 8;
        let ghost origin: int = x * 8 * scale + y * scale * self.width;
        let mut j: usize = 0;
        while j < bs
            invariant
                j <= bs,
                bs == 8 * sc,
                sc == scale,
                sc > 0,
                glyph + 8 <= 768,
                page_off < NUM_PAGES,
                width == self.width,
                col + bs <= width,
                top + bs <= self.height,
                origin == col + top * width,
                self.wf(),
                old(self).wf(),
                self@.same_frame(old(self)@),
                self@ == old(self)@.glyph_rows(page_off as int, origin, scale as int, glyph as int, color, j as nat),
            decreases bs - j,
        {
            let row: usize = top + j;
            proof {
                lemma_row_bound(row as int, (col + bs - 1) as int, width as int, self.height as int);
                assert(row * width + col == origin + j * width) by (nonlinear_arith)
                    requires
                        row == top + j,
                        origin == col + top * width,
                ;
            }
            let start: usize = row * width + col;
            assert(j / sc < 8) by (nonlinear_arith)
                requires
                    j < 8 * sc,
                    sc > 0,
            ;
            let bits: u8 = FONT[glyph + j / sc];
            let ghost row_start = self@;
            let mut i: usize = 0;
            assert(self@ =~~= row_start.glyph_row(page_off as int, start as int, start as int, scale as int, bits, color));
            while i < bs
                invariant
                    i <= bs,
                    bs == 8 * sc,
                    sc == scale,
                    sc > 0,
                    page_off < NUM_PAGES,
                    start + bs <= self.width * self.height,
                    self.wf(),
                    row_start.wf(),
                    self@.same_frame(old(self)@),
                    row_start.same_frame(old(self)@),
                    self@ == row_start.glyph_row(page_off as int, start as int, start + i, scale as int, bits, color),
                decreases bs - i,
            {
                assert(i / sc < 8) by (nonlinear_arith)
                    requires
                        i < 8 * sc,
                        sc > 0,
                ;
                let sh: u32 = (i / sc) as u32;
                if (bits << sh) & 0x80 != 0 {
                    self.put_pixel(page_off, start + i, color);
                }
                i = i + 1;
                assert(self@ =~~= row_start.glyph_row(
                    page_off as int,
                    start as int,
                    start + i,
                    scale as int,
                    bits,
                    color,
                ));
            }
            j = j + 1;
        }
    }

    /// Draws a text on the draw page, its first character in character
    /// cell `x` and from row `y` on. A line feed goes eight rows down and
    /// back to cell `x`.
    pub fn draw_string(&mut self, color: u8, x: u16, y: u16, string: &str, scale: u32)
        requires
            old(self).wf(),
        ensures
            final(self).wf(),
            final(self)@.same_frame(old(self)@),
            final(self)@ == old(self)@.draw_string(color, x, y, string.spec_bytes(), scale),
    {
        let text = string.as_bytes();
        let n = text.len();
        let x_origin = x;
        let mut cx = x;
        let mut cy = y;
        let mut k: usize = 0;
        let ghost goal = old(self)@.draw_string(color, x, y, text@, scale);
        while k < n
            invariant
                k <= n,
                n == text@.len(),
                self.wf(),
                self@.same_frame(old(self)@),
                self@.draw_text(color, x_origin, cx, cy, text@, k as int, scale) == goal,
            decreases n - k,
        {
            let c = text[k];
            if c == LINE_FEED {
                cy = cy.wrapping_add(8);
                cx = x_origin;
            } else {
                let page = self.cur_page_ptr1;
                self.draw_char(c, cx, cy, color, page, scale);
                cx = cx.wrapping_add(1);
            }
            k = k + 1;
        }
    }

    /// Draws the text with id `string_id` on the draw page. An id that
    /// the table does not have draws nothing.
    pub fn draw_string_id(&mut self, color: u8, x: u16, y: u16, string_id: u16, scale: u32)
        requires
            old(self).wf(),
        ensures
            final(self).wf(),
            final(self)@.same_frame(old(self)@),
            final(self)@ == old(self)@.draw_string_id(color, x, y, string_id, scale),
    {
        match string_entry(string_id) {
            Some(entry) => {
                self.draw_string(color, x, y, entry, scale);
            },
            None => {},
        }
    }
}

impl VideoView {
    /// Drawing rows of a glyph keeps the renderer well formed and its
    /// page roles.
    pub proof fn lemma_glyph_rows_wf(self, page: int, origin: int, scale: int, glyph: int, color: u8, rows: nat)
        requires
            self.wf(),
            0 <= page < NUM_PAGES,
        ensures
            self.glyph_rows(page, origin, scale, glyph, color, rows).wf(),
            self.glyph_rows(page, origin, scale, glyph, color, rows).same_frame(self),
        decreases rows,
    {
        if rows != 0 {
            let j = rows - 1;
            self.lemma_glyph_rows_wf(page, origin, scale, glyph, color, j as nat);
            let before = self.glyph_rows(page, origin, scale, glyph, color, j as nat);
            let after = self.glyph_rows(page, origin, scale, glyph, color, rows);
            assert forall|i: int| 0 <= i < NUM_PAGES implies (#[trigger] after.pages[i]).len() == after.width
                * after.height by {
                assert(before.pages[i].len() == before.width * before.height);
            }
        }
    }

    /// Drawing a character keeps the renderer well formed and its page
    /// roles.
    pub proof fn lemma_draw_char_wf(self, character: u8, x: u16, y: u16, color: u8, page: usize, scale: u32)
        requires
            self.wf(),
        ensures
            self.draw_char(character, x, y, color, page, scale).wf(),
            self.draw_char(character, x, y, color, page, scale).same_frame(self),
    {
        if self.glyph_fits(x, y, scale) && FONT_FIRST <= character < 0x80 && page < NUM_PAGES {
            self.lemma_glyph_rows_wf(
                page as int,
                x * 8 * scale + y * scale * self.width,
                scale as int,
                (character - FONT_FIRST) * 8,
                color,
                (8 * scale) as nat,
            );
        }
    }

    /// Drawing a text keeps the renderer well formed and its page roles.
    pub proof fn lemma_draw_text_wf(self, color: u8, x_origin: u16, x: u16, y: u16, text: Seq<u8>, from: int, scale: u32)
        requires
            self.wf(),
        ensures
            self.draw_text(color, x_origin, x, y, text, from, scale).wf(),
            self.draw_text(color, x_origin, x, y, text, from, scale).same_frame(self),
        decreases text.len() - from,
    {
        if 0 <= from < text.len() {
            if text[from] == LINE_FEED {
                self.lemma_draw_text_wf(color, x_origin, x_origin, y.wrapping_add(8), text, from + 1, scale);
            } else {
                self.lemma_draw_char_wf(text[from], x, y, color, self.ptr1, scale);
                self.draw_char(text[from], x, y, color, self.ptr1, scale).lemma_draw_text_wf(
                    color,
                    x_origin,
                    x.wrapping_add(1),
                    y,
                    text,
                    from + 1,
                    scale,
                );
            }
        }
    }

    /// Drawing a text of the table keeps the renderer well formed and
    /// its page roles.
    pub proof fn lemma_draw_string_id_wf(self, color: u8, x: u16, y: u16, string_id: u16, scale: u32)
        requires
            self.wf(),
        ensures
            self.draw_string_id(color, x, y, string_id, scale).wf(),
            self.draw_string_id(color, x, y, string_id, scale).same_frame(self),
    {
        match spec_string_entry(string_id) {
            Some(text) => {
                self.lemma_draw_text_wf(color, x, x, y, text.spec_bytes(), 0, scale);
            },
            None => {},
        }
    }
}

} // verus!
