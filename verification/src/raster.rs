use crate::polygon::Point;
use crate::polygon::Polygon;
use crate::polygon::PolygonView;
use crate::video::Video;
use crate::video::VideoView;
use crate::video::NUM_PAGES;
use vstd::prelude::*;

verus! {

/// Colours up to this one are drawn as they are.
pub const COLOR_LAST_PLAIN: u8 = 0x0f;

/// The colour that darkens what is on the page.
pub const COLOR_BLEND: u8 = 0x10;

/// The integer part of a 16.16 fixed-point edge position.
pub const EDGE_INT_MASK: u64 = 0xffff_ffff_ffff_0000;

/// The slope multiplier of an edge that spans `dy` scanlines: `0x4000 / dy`
/// rounded towards zero, and `0x4000` for a flat edge.
pub open spec fn spec_slope(dy: i32) -> i32 {
    if dy == 0 {
        0x4000i32
    } else if dy > 0 {
        (0x4000int / (dy as int)) as i32
    } else {
        (-(0x4000int / (-(dy as int)))) as i32
    }
}

/// The step in x of the edge from `from` to `to` for each scanline, in 16.16
/// fixed point, and the number of scanlines that the edge spans.
pub open spec fn spec_calc_step(from: Point, to: Point) -> (i32, u16) {
    let dy = to.y.wrapping_sub(from.y);
    (to.x.wrapping_sub(from.x).wrapping_mul(spec_slope(dy)).wrapping_mul(4), dy as u16)
}

/// Half of `v`, rounded towards zero.
pub open spec fn spec_half(v: i32) -> i32 {
    if v >= 0 {
        (v as int / 2) as i32
    } else {
        (-((-(v as int)) / 2)) as i32
    }
}

/// An edge position moved by one step.
pub open spec fn spec_advance(c: u64, step: i32) -> u64 {
    c.wrapping_add(step as i64 as u64)
}

/// The pixel column of an edge position.
pub open spec fn spec_column(c: u64) -> i32 {
    (c >> 16) as i32
}

/// The edge position of a pixel column.
pub open spec fn spec_edge(x: i32) -> u64 {
    (x as u64) << 16
}

/// The smaller of two columns.
pub open spec fn spec_min(a: i32, b: i32) -> i32 {
    if a < b {
        a
    } else {
        b
    }
}

/// The larger of two columns.
pub open spec fn spec_max(a: i32, b: i32) -> i32 {
    if a < b {
        b
    } else {
        a
    }
}

/// The state of a polygon fill between two scanlines: the pages, the two
/// edge positions, the next scanline, and whether the bottom of the page
/// has been reached.
#[verifier::ext_equal]
pub struct Scan {
    pub video: VideoView,
    pub cpt1: u64,
    pub cpt2: u64,
    pub hliney: i32,
    pub done: bool,
}

/// A fill state made of its parts.
pub open spec fn spec_scan(video: VideoView, cpt1: u64, cpt2: u64, hliney: i32, done: bool) -> Scan {
    Scan { video, cpt1, cpt2, hliney, done }
}

impl VideoView {
    /// The draw page with the pixels of row `y` from column `min(x1, x2)`
    /// to column `max(x1, x2)` replaced: `f` gives the new pixel from the
    /// old one and from the pixel of page 0 at the same place.
    pub open spec fn map_span(self, x1: i32, x2: i32, y: i32, f: spec_fn(u8, u8) -> u8) -> VideoView {
        let start = y * self.width + spec_min(x1, x2);
        let end = y * self.width + spec_max(x1, x2) + 1;
        let t = self.ptr1 as int;
        VideoView {
            pages: self.pages.update(
                t,
                Seq::new(
                    self.pages[t].len(),
                    |k: int|
                        if start <= k < end {
                            f(self.pages[t][k], self.pages[0][k])
                        } else {
                            self.pages[t][k]
                        },
                ),
            ),
            ..self
        }
    }

    /// A span of one plain colour.
    pub open spec fn line_n(self, x1: i32, x2: i32, color: u8, y: i32) -> VideoView {
        self.map_span(x1, x2, y, |d: u8, b: u8| color)
    }

    /// A span copied from page 0.
    pub open spec fn line_p(self, x1: i32, x2: i32, y: i32) -> VideoView {
        self.map_span(x1, x2, y, |d: u8, b: u8| b)
    }

    /// A span that darkens the draw page: each pixel keeps the low three
    /// bits of each nibble and gets the shadow bit.
    pub open spec fn line_blend(self, x1: i32, x2: i32, y: i32) -> VideoView {
        self.map_span(x1, x2, y, |d: u8, b: u8| (d & 0x77) | 0x08)
    }

    /// A span drawn the way that `color` selects.
    pub open spec fn draw_line(self, x1: i32, x2: i32, color: u8, y: i32) -> VideoView {
        if color <= COLOR_LAST_PLAIN {
            self.line_n(x1, x2, color, y)
        } else if color == COLOR_BLEND {
            self.line_blend(x1, x2, y)
        } else {
            self.line_p(x1, x2, y)
        }
    }

    /// One pixel of the draw page set to `color`, if `point` is on the page.
    pub open spec fn draw_point(self, color: u8, point: Point) -> VideoView {
        if 0 <= point.x < self.width && 0 <= point.y < self.height {
            let t = self.ptr1 as int;
            VideoView { pages: self.pages.update(t, self.pages[t].update(point.y * self.width + point.x, color)), ..self }
        } else {
            self
        }
    }

    /// The span between the two edges on scanline `hliney`, clipped to the
    /// page. Nothing is drawn above the page or when the span lies beside it.
    pub open spec fn scan_row(self, cpt1: u64, cpt2: u64, color: u8, hliney: i32) -> VideoView {
        let x1 = spec_column(cpt1);
        let x2 = spec_column(cpt2);
        if hliney >= 0 && x1 < self.width && x2 >= 0 {
            let x1c = if x1 < 0 {
                0i32
            } else {
                x1
            };
            let x2c = if x2 >= self.width {
                (self.width - 1) as i32
            } else {
                x2
            };
            self.draw_line(x1c, x2c, color, hliney)
        } else {
            self
        }
    }

    /// The polygon drawn on the draw page with its bounding box centred
    /// at `point`.
    pub open spec fn fill_polygon(self, polygon: PolygonView, color: u8, point: Point) -> VideoView {
        let n = polygon.points.len() as int;
        if polygon.bbw == 0 && polygon.bbh == 1 && n == 4 {
            self.draw_point(color, point)
        } else {
            let hw = spec_half(polygon.bbw as i32);
            let hh = spec_half(polygon.bbh as i32);
            let x1 = point.x.wrapping_sub(hw);
            let x2 = point.x.wrapping_add(hw);
            let y1 = point.y.wrapping_sub(hh);
            let y2 = point.y.wrapping_add(hh);
            if x1 >= self.width || x2 < 0 || y1 >= self.height || y2 < 0 || n < 2 {
                self
            } else {
                let start = Scan {
                    video: self,
                    cpt1: spec_edge(x1.wrapping_add(polygon.points[n - 1].x)),
                    cpt2: spec_edge(polygon.points[0].x.wrapping_add(x1)),
                    hliney: y1,
                    done: false,
                };
                spec_fill_edges(start, color, polygon.points, 1, n - 2, (n / 2 - 1) as nat).video
            }
        }
    }
}

/// `count` scanlines drawn from state `s` on, the edges moving by `step1`
/// and `step2` after each. The fill is done when the scanline below the
/// page is reached.
pub open spec fn spec_scan_rows(s: Scan, color: u8, step1: i32, step2: i32, count: nat) -> Scan
    decreases count,
{
    if count == 0 || s.done {
        s
    } else {
        let hl = (s.hliney + 1) as i32;
        let next = Scan {
            video: s.video.scan_row(s.cpt1, s.cpt2, color, s.hliney),
            cpt1: spec_advance(s.cpt1, step1),
            cpt2: spec_advance(s.cpt2, step2),
            hliney: hl,
            done: hl >= s.video.height,
        };
        spec_scan_rows(next, color, step1, step2, (count - 1) as nat)
    }
}

/// The rest of a polygon drawn from state `s` on: `pairs` pairs of edges,
/// the next pair ending at vertex `j` on one side and at vertex `i`
/// on the other. Before each pair the two positions are rounded, one
/// down and one up.
pub open spec fn spec_fill_edges(s: Scan, color: u8, points: Seq<Point>, i: int, j: int, pairs: nat) -> Scan
    decreases pairs,
{
    if pairs == 0 || s.done {
        s
    } else {
        let step1 = spec_calc_step(points[j + 1], points[j]).0;
        let (step2, h) = spec_calc_step(points[i - 1], points[i]);
        let c1 = (s.cpt1 & EDGE_INT_MASK) | 0x7fff;
        let c2 = (s.cpt2 & EDGE_INT_MASK) | 0x8000;
        let rounded = Scan { cpt1: c1, cpt2: c2, ..s };
        let next = if h == 0 {
            Scan { cpt1: spec_advance(c1, step1), cpt2: spec_advance(c2, step2), ..rounded }
        } else {
            spec_scan_rows(rounded, color, step1, step2, h as nat)
        };
        spec_fill_edges(next, color, points, i + 1, j - 1, (pairs - 1) as nat)
    }
}

/// A pixel of a row lies on the page.
pub proof fn lemma_row_bound(y: int, x: int, w: int, h: int)
    requires
        0 <= y < h,
        0 <= x < w,
    ensures
        0 <= y * w + x < w * h,
        y * w >= 0,
{
    assert(y * w >= 0) by (nonlinear_arith)
        requires
            0 <= y,
            0 <= w,
    ;
    assert(y * w + w <= w * h) by (nonlinear_arith)
        requires
            0 <= y < h,
            0 <= w,
    ;
}

/// The slope multiplier of an edge that spans `dy` scanlines.
pub fn slope(dy: i32) -> (r: i32)
    ensures
        r == spec_slope(dy),
{
    if dy == 0 {
        0x4000
    } else if dy > 0 {
        0x4000 / dy
    } else if dy == i32::MIN {
        0
    } else {
        let d: i32 = -dy;
        let q: i32 = 0x4000 / d;
        assert(0 <= q <= 0x4000) by (nonlinear_arith)
            requires
                q == 0x4000int / (d as int),
                d > 0,
        ;
        -q
    }
}

/// The step in x of the edge from `from` to `to` for each scanline, and the
/// number of scanlines that the edge spans.
pub fn calc_step(from: &Point, to: &Point) -> (r: (i32, u16))
    ensures
        r == spec_calc_step(*from, *to),
{
    let dy: i32 = to.y.wrapping_sub(from.y);
    let mul: i32 = slope(dy);
    let step: i32 = to.x.wrapping_sub(from.x).wrapping_mul(mul).wrapping_mul(4);
    (step, #[verifier::truncate] (dy as u16))
}

/// Half of `v`, rounded towards zero.
pub fn half(v: i32) -> (r: i32)
    ensures
        r == spec_half(v),
{
    if v >= 0 {
        v / 2
    } else {
        let m: i64 = -(v as i64);
        let q: i64 = m / 2;
        (-q) as i32
    }
}

/// An edge position moved by one step.
pub fn advance(c: u64, step: i32) -> (r: u64)
    ensures
        r == spec_advance(c, step),
{
    c.wrapping_add(#[verifier::truncate] (step as i64 as u64))
}

/// The pixel column of an edge position.
pub fn column(c: u64) -> (r: i32)
    ensures
        r == spec_column(c),
{
    #[verifier::truncate]
    ((c >> 16) as i32)
}

/// The edge position of a pixel column.
pub fn edge(x: i32) -> (r: u64)
    ensures
        r == spec_edge(x),
{
    (#[verifier::truncate] (x as u64)) << 16
}

impl VideoView {
    /// One pixel of one page replaced.
    pub open spec fn put(self, page: int, offset: int, value: u8) -> VideoView {
        VideoView { pages: self.pages.update(page, self.pages[page].update(offset, value)), ..self }
    }

    /// The first pixels of a span replaced: those before `upto`.
    pub open spec fn map_span_upto(self, x1: i32, x2: i32, y: i32, f: spec_fn(u8, u8) -> u8, upto: int) -> VideoView {
        let start = y * self.width + spec_min(x1, x2);
        let t = self.ptr1 as int;
        VideoView {
            pages: self.pages.update(
                t,
                Seq::new(
                    self.pages[t].len(),
                    |k: int|
                        if start <= k < upto {
                            f(self.pages[t][k], self.pages[0][k])
                        } else {
                            self.pages[t][k]
                        },
                ),
            ),
            ..self
        }
    }
}

impl Video {
    /// Sets one pixel of one page.
    pub fn put_pixel(&mut self, page: usize, offset: usize, value: u8)
        requires
            old(self).wf(),
            page < NUM_PAGES,
            offset < old(self).width * old(self).height,
        ensures
            final(self).wf(),
            final(self)@ == old(self)@.put(page as int, offset as int, value),
    {
        assert(self.pages[page as int].data@ == self@.pages[page as int]);
        self.pages[page].data[offset] = value;
        assert(self@.pages =~~= old(self)@.put(page as int, offset as int, value).pages);
    }

    /// Reads one pixel of one page.
    pub fn get_pixel(&self, page: usize, offset: usize) -> (value: u8)
        requires
            self.wf(),
            page < NUM_PAGES,
            offset < self.width * self.height,
        ensures
            value == self@.pages[page as int][offset as int],
    {
        assert(self.pages[page as int].data@ == self@.pages[page as int]);
        self.pages[page].data[offset]
    }

    /// Draws row `hliney` from column `min(x1, x2)` to column
    /// `max(x1, x2)` in one colour.
    pub fn draw_line_n(&mut self, x1: i32, x2: i32, color: u8, hliney: i32)
        requires
            old(self).wf(),
            0 <= x1 < old(self).width,
            0 <= x2 < old(self).width,
            0 <= hliney < old(self).height,
        ensures
            final(self).wf(),
            final(self)@ == old(self)@.line_n(x1, x2, color, hliney),
    {
        let xmax = if x1 < x2 { x2 } else { x1 };
        let xmin = if x1 < x2 { x1 } else { x2 };
        proof {
            lemma_row_bound(hliney as int, xmin as int, self.width as int, self.height as int);
            lemma_row_bound(hliney as int, xmax as int, self.width as int, self.height as int);
        }
        let start: usize = hliney as usize * self.width + xmin as usize;
        let end: usize = hliney as usize * self.width + xmax as usize + 1;
        let t = self.cur_page_ptr1;
        let ghost f = |d: u8, b: u8| color;
        let mut offset = start;
        assert(self@ =~~= old(self)@.map_span_upto(x1, x2, hliney, f, offset as int));
        while offset < end
            invariant
                start <= offset <= end,
                start == hliney * old(self)@.width + spec_min(x1, x2),
                end <= old(self)@.width * old(self)@.height,
                t == old(self)@.ptr1,
                old(self).wf(),
                self.wf(),
                f == (|d: u8, b: u8| color),
                self@ == old(self)@.map_span_upto(x1, x2, hliney, f, offset as int),
            decreases end - offset,
        {
            self.put_pixel(t, offset, color);
            offset = offset + 1;
            assert(self@ =~~= old(self)@.map_span_upto(x1, x2, hliney, f, offset as int));
        }
        assert(self@ =~~= old(self)@.line_n(x1, x2, color, hliney));
    }

    /// Copies row `hliney` from column `min(x1, x2)` to column
    /// `max(x1, x2)` from page 0.
    pub fn draw_line_p(&mut self, x1: i32, x2: i32, color: u8, hliney: i32)
        requires
            old(self).wf(),
            0 <= x1 < old(self).width,
            0 <= x2 < old(self).width,
            0 <= hliney < old(self).height,
        ensures
            final(self).wf(),
            final(self)@ == old(self)@.line_p(x1, x2, hliney),
    {
        let xmax = if x1 < x2 { x2 } else { x1 };
        let xmin = if x1 < x2 { x1 } else { x2 };
        proof {
            lemma_row_bound(hliney as int, xmin as int, self.width as int, self.height as int);
            lemma_row_bound(hliney as int, xmax as int, self.width as int, self.height as int);
        }
        let start: usize = hliney as usize * self.width + xmin as usize;
        let end: usize = hliney as usize * self.width + xmax as usize + 1;
        let t = self.cur_page_ptr1;
        let ghost f = |d: u8, b: u8| b;
        let mut offset = start;
        assert(self@ =~~= old(self)@.map_span_upto(x1, x2, hliney, f, offset as int));
        while offset < end
            invariant
                start <= offset <= end,
                start == hliney * old(self)@.width + spec_min(x1, x2),
                end <= old(self)@.width * old(self)@.height,
                t == old(self)@.ptr1,
                old(self).wf(),
                self.wf(),
                f == (|d: u8, b: u8| b),
                self@ == old(self)@.map_span_upto(x1, x2, hliney, f, offset as int),
            decreases end - offset,
        {
            let back = self.get_pixel(0, offset);
            self.put_pixel(t, offset, back);
            offset = offset + 1;
            assert(self@ =~~= old(self)@.map_span_upto(x1, x2, hliney, f, offset as int));
        }
        assert(self@ =~~= old(self)@.line_p(x1, x2, hliney));
    }

    /// Darkens row `hliney` from column `min(x1, x2)` to column
    /// `max(x1, x2)`.
    pub fn draw_line_blend(&mut self, x1: i32, x2: i32, color: u8, hliney: i32)
        requires
            old(self).wf(),
            0 <= x1 < old(self).width,
            0 <= x2 < old(self).width,
            0 <= hliney < old(self).height,
        ensures
            final(self).wf(),
            final(self)@ == old(self)@.line_blend(x1, x2, hliney),
    {
        let xmax = if x1 < x2 { x2 } else { x1 };
        let xmin = if x1 < x2 { x1 } else { x2 };
        proof {
            lemma_row_bound(hliney as int, xmin as int, self.width as int, self.height as int);
            lemma_row_bound(hliney as int, xmax as int, self.width as int, self.height as int);
        }
        let start: usize = hliney as usize * self.width + xmin as usize;
        let end: usize = hliney as usize * self.width + xmax as usize + 1;
        let t = self.cur_page_ptr1;
        let ghost f = |d: u8, b: u8| (d & 0x77) | 0x08;
        let mut offset = start;
        assert(self@ =~~= old(self)@.map_span_upto(x1, x2, hliney, f, offset as int));
        while offset < end
            invariant
                start <= offset <= end,
                start == hliney * old(self)@.width + spec_min(x1, x2),
                end <= old(self)@.width * old(self)@.height,
                t == old(self)@.ptr1,
                old(self).wf(),
                self.wf(),
                f == (|d: u8, b: u8| (d & 0x77) | 0x08),
                self@ == old(self)@.map_span_upto(x1, x2, hliney, f, offset as int),
            decreases end - offset,
        {
            let p = self.get_pixel(t, offset);
            self.put_pixel(t, offset, (p & 0x77) | 0x08);
            offset = offset + 1;
            assert(self@ =~~= old(self)@.map_span_upto(x1, x2, hliney, f, offset as int));
        }
        assert(self@ =~~= old(self)@.line_blend(x1, x2, hliney));
    }

    /// Sets the pixel at `point` of the draw page to `color`, if `point`
    /// is on the page.
    pub fn draw_point(&mut self, color: u8, point: Point)
        requires
            old(self).wf(),
        ensures
            final(self).wf(),
            final(self)@ == old(self)@.draw_point(color, point),
    {
        if point.x >= 0 && (point.x as usize) < self.width && point.y >= 0 && (point.y as usize) < self.height {
            proof {
                lemma_row_bound(point.y as int, point.x as int, self.width as int, self.height as int);
            }
            let offset: usize = point.y as usize * self.width + point.x as usize;
            let t = self.cur_page_ptr1;
            self.put_pixel(t, offset, color);
        }
    }
}

impl Video {
    /// Draws the span between two edge positions on scanline `hliney`,
    /// clipped to the page.
    pub fn scan_row(&mut self, cpt1: u64, cpt2: u64, color: u8, hliney: i32)
        requires
            old(self).wf(),
            hliney < old(self).height,
        ensures
            final(self).wf(),
            final(self)@ == old(self)@.scan_row(cpt1, cpt2, color, hliney),
    {
        if hliney >= 0 {
            proof {
                self@.lemma_dims();
            }
            let width: i32 = self.width as i32;
            let mut x1: i32 = column(cpt1);
            let mut x2: i32 = column(cpt2);
            if x1 < width && x2 >= 0 {
                if x1 < 0 {
                    x1 = 0;
                }
                if x2 >= width {
                    x2 = width - 1;
                }
                if color <= COLOR_LAST_PLAIN {
                    self.draw_line_n(x1, x2, color, hliney);
                } else if color == COLOR_BLEND {
                    self.draw_line_blend(x1, x2, color, hliney);
                } else {
                    self.draw_line_p(x1, x2, color, hliney);
                }
            }
        }
    }

    /// Draws `h` scanlines between two moving edges, from scanline
    /// `hliney` on. Returns the edge positions and the scanline after the
    /// last one drawn, and whether the bottom of the page was reached.
    pub fn scan_rows(&mut self, cpt1: u64, cpt2: u64, hliney: i32, color: u8, step1: i32, step2: i32, h: u16) -> (r: (
        u64,
        u64,
        i32,
        bool,
    ))
        requires
            old(self).wf(),
            hliney < old(self).height,
        ensures
            final(self).wf(),
            spec_scan(final(self)@, r.0, r.1, r.2, r.3) == spec_scan_rows(
                spec_scan(old(self)@, cpt1, cpt2, hliney, false),
                color,
                step1,
                step2,
                h as nat,
            ),
            !r.3 ==> r.2 < final(self).height,
            final(self)@.same_frame(old(self)@),
    {
        proof {
            self@.lemma_dims();
        }
        let height: i32 = self.height as i32;
        let mut c1 = cpt1;
        let mut c2 = cpt2;
        let mut y = hliney;
        let mut left = h;
        let ghost goal = spec_scan_rows(
            spec_scan(old(self)@, cpt1, cpt2, hliney, false),
            color,
            step1,
            step2,
            h as nat,
        );
        while left > 0
            invariant
                self.wf(),
                self@.same_frame(old(self)@),
                height == self.height,
                y < height,
                goal == spec_scan_rows(spec_scan(old(self)@, cpt1, cpt2, hliney, false), color, step1, step2, h as nat),
                spec_scan_rows(spec_scan(self@, c1, c2, y, false), color, step1, step2, left as nat)
                    == goal,
            decreases left,
        {
            let ghost before = spec_scan(self@, c1, c2, y, false);
            self.scan_row(c1, c2, color, y);
            c1 = advance(c1, step1);
            c2 = advance(c2, step2);
            y = y + 1;
            left = left - 1;
            let ghost after = spec_scan(self@, c1, c2, y, y >= height);
            assert(spec_scan_rows(before, color, step1, step2, (left + 1) as nat) == spec_scan_rows(
                after,
                color,
                step1,
                step2,
                left as nat,
            ));
            if y >= height {
                assert(spec_scan_rows(after, color, step1, step2, left as nat) == after);
                return (c1, c2, y, true);
            }
        }
        (c1, c2, y, false)
    }

    /// Fills a polygon on the draw page, its bounding box centred at
    /// `point`. A polygon whose box is 0 wide and 1 high and that has four
    /// vertices is one pixel. Colours up to 0x0f are drawn as they are,
    /// colour 0x10 darkens the page, and any other colour copies page 0.
    pub fn fill_polygon(&mut self, polygon: &Polygon, color: u8, point: Point)
        requires
            old(self).wf(),
            polygon.wf(),
        ensures
            final(self).wf(),
            final(self)@ == old(self)@.fill_polygon(polygon@, color, point),
            final(self)@.same_frame(old(self)@),
    {
        let n = polygon.num_points();
        if polygon.bbw == 0 && polygon.bbh == 1 && n == 4 {
            self.draw_point(color, point);
            return ;
        }
        proof {
            self@.lemma_dims();
        }
        let width: i32 = self.width as i32;
        let height: i32 = self.height as i32;
        let hw: i32 = half(#[verifier::truncate] (polygon.bbw as i32));
        let hh: i32 = half(#[verifier::truncate] (polygon.bbh as i32));
        let x1: i32 = point.x.wrapping_sub(hw);
        let x2: i32 = point.x.wrapping_add(hw);
        let y1: i32 = point.y.wrapping_sub(hh);
        let y2: i32 = point.y.wrapping_add(hh);
        if x1 >= width || x2 < 0 || y1 >= height || y2 < 0 || n < 2 {
            return ;
        }
        let mut hliney: i32 = y1;
        let mut i: usize = 1;
        let mut j: usize = n - 2;
        let mut cpt1: u64 = edge(x1.wrapping_add(polygon.points[n - 1].x));
        let mut cpt2: u64 = edge(polygon.points[0].x.wrapping_add(x1));
        let mut pairs: usize = n / 2 - 1;
        let ghost points = polygon@.points;
        let ghost goal = spec_fill_edges(
            spec_scan(old(self)@, cpt1, cpt2, hliney, false),
            color,
            points,
            1,
            n - 2,
            (n / 2 - 1) as nat,
        );
        while pairs > 0
            invariant
                self.wf(),
                self@.same_frame(old(self)@),
                polygon.wf(),
                goal.video == old(self)@.fill_polygon(polygon@, color, point),
                points == polygon@.points,
                n == points.len(),
                height == self.height,
                hliney < height,
                1 <= i,
                i + pairs == n / 2,
                j == n / 2 - 1 + pairs,
                spec_fill_edges(spec_scan(self@, cpt1, cpt2, hliney, false), color, points, i as int, j as int, pairs as nat)
                    == goal,
            decreases pairs,
        {
            let ghost before = spec_scan(self@, cpt1, cpt2, hliney, false);
            let step1 = calc_step(&polygon.points[j + 1], &polygon.points[j]).0;
            let (step2, h) = calc_step(&polygon.points[i - 1], &polygon.points[i]);
            i = i + 1;
            j = j - 1;
            cpt1 = (cpt1 & EDGE_INT_MASK) | 0x7fff;
            cpt2 = (cpt2 & EDGE_INT_MASK) | 0x8000;
            if h == 0 {
                cpt1 = advance(cpt1, step1);
                cpt2 = advance(cpt2, step2);
            } else {
                let r = self.scan_rows(cpt1, cpt2, hliney, color, step1, step2, h);
                cpt1 = r.0;
                cpt2 = r.1;
                hliney = r.2;
                if r.3 {
                    let ghost after = spec_scan(self@, cpt1, cpt2, hliney, true);
                    assert(spec_fill_edges(before, color, points, i - 1, j + 1, pairs as nat) == spec_fill_edges(
                        after,
                        color,
                        points,
                        i as int,
                        j as int,
                        (pairs - 1) as nat,
                    ));
                    assert(spec_fill_edges(after, color, points, i as int, j as int, (pairs - 1) as nat) == after);
                    return ;
                }
            }
            pairs = pairs - 1;
            let ghost after = spec_scan(self@, cpt1, cpt2, hliney, false);
            assert(spec_fill_edges(before, color, points, i - 1, j + 1, (pairs + 1) as nat) == spec_fill_edges(
                after,
                color,
                points,
                i as int,
                j as int,
                pairs as nat,
            ));
        }
    }
}

impl VideoView {
    /// Drawing a span keeps the renderer well formed and its page roles.
    pub proof fn lemma_map_span_wf(self, x1: i32, x2: i32, y: i32, f: spec_fn(u8, u8) -> u8)
        requires
            self.wf(),
        ensures
            self.map_span(x1, x2, y, f).wf(),
            self.map_span(x1, x2, y, f).same_frame(self),
    {
        let after = self.map_span(x1, x2, y, f);
        assert forall|i: int| 0 <= i < NUM_PAGES implies (#[trigger] after.pages[i]).len() == after.width
            * after.height by {
            assert(self.pages[i].len() == self.width * self.height);
        }
    }

    /// Drawing a scanline of a polygon keeps the renderer well formed and
    /// its page roles.
    pub proof fn lemma_scan_row_wf(self, cpt1: u64, cpt2: u64, color: u8, hliney: i32)
        requires
            self.wf(),
        ensures
            self.scan_row(cpt1, cpt2, color, hliney).wf(),
            self.scan_row(cpt1, cpt2, color, hliney).same_frame(self),
    {
        let x1 = spec_column(cpt1);
        let x2 = spec_column(cpt2);
        if hliney >= 0 && x1 < self.width && x2 >= 0 {
            let x1c = if x1 < 0 {
                0i32
            } else {
                x1
            };
            let x2c = if x2 >= self.width {
                (self.width - 1) as i32
            } else {
                x2
            };
            self.lemma_map_span_wf(x1c, x2c, hliney, |d: u8, b: u8| color);
            self.lemma_map_span_wf(x1c, x2c, hliney, |d: u8, b: u8| b);
            self.lemma_map_span_wf(x1c, x2c, hliney, |d: u8, b: u8| (d & 0x77) | 0x08);
        }
    }

    /// Filling a polygon keeps the renderer well formed and its page
    /// roles.
    pub proof fn lemma_fill_polygon_wf(self, polygon: PolygonView, color: u8, point: Point)
        requires
            self.wf(),
        ensures
            self.fill_polygon(polygon, color, point).wf(),
            self.fill_polygon(polygon, color, point).same_frame(self),
    {
        let n = polygon.points.len() as int;
        if polygon.bbw == 0 && polygon.bbh == 1 && n == 4 {
            let after = self.draw_point(color, point);
            if 0 <= point.x < self.width && 0 <= point.y < self.height {
                lemma_row_bound(point.y as int, point.x as int, self.width as int, self.height as int);
            }
            assert forall|i: int| 0 <= i < NUM_PAGES implies (#[trigger] after.pages[i]).len() == after.width
                * after.height by {
                assert(self.pages[i].len() == self.width * self.height);
            }
        } else {
            let x1 = point.x.wrapping_sub(spec_half(polygon.bbw as i32));
            let y1 = point.y.wrapping_sub(spec_half(polygon.bbh as i32));
            let start = Scan {
                video: self,
                cpt1: spec_edge(x1.wrapping_add(polygon.points[n - 1].x)),
                cpt2: spec_edge(polygon.points[0].x.wrapping_add(x1)),
                hliney: y1,
                done: false,
            };
            lemma_fill_edges_wf(start, color, polygon.points, 1, n - 2, (n / 2 - 1) as nat);
        }
    }
}

/// Drawing scanlines keeps the renderer well formed and its page roles.
pub proof fn lemma_scan_rows_wf(s: Scan, color: u8, step1: i32, step2: i32, count: nat)
    requires
        s.video.wf(),
    ensures
        spec_scan_rows(s, color, step1, step2, count).video.wf(),
        spec_scan_rows(s, color, step1, step2, count).video.same_frame(s.video),
    decreases count,
{
    if count != 0 && !s.done {
        s.video.lemma_scan_row_wf(s.cpt1, s.cpt2, color, s.hliney);
        let hl = (s.hliney + 1) as i32;
        let next = Scan {
            video: s.video.scan_row(s.cpt1, s.cpt2, color, s.hliney),
            cpt1: spec_advance(s.cpt1, step1),
            cpt2: spec_advance(s.cpt2, step2),
            hliney: hl,
            done: hl >= s.video.height,
        };
        lemma_scan_rows_wf(next, color, step1, step2, (count - 1) as nat);
    }
}

/// Drawing the edges of a polygon keeps the renderer well formed and its
/// page roles.
pub proof fn lemma_fill_edges_wf(s: Scan, color: u8, points: Seq<Point>, i: int, j: int, pairs: nat)
    requires
        s.video.wf(),
    ensures
        spec_fill_edges(s, color, points, i, j, pairs).video.wf(),
        spec_fill_edges(s, color, points, i, j, pairs).video.same_frame(s.video),
    decreases pairs,
{
    if pairs != 0 && !s.done {
        let step1 = spec_calc_step(points[j + 1], points[j]).0;
        let (step2, h) = spec_calc_step(points[i - 1], points[i]);
        let c1 = (s.cpt1 & EDGE_INT_MASK) | 0x7fff;
        let c2 = (s.cpt2 & EDGE_INT_MASK) | 0x8000;
        let rounded = Scan { cpt1: c1, cpt2: c2, ..s };
        let next = if h == 0 {
            Scan { cpt1: spec_advance(c1, step1), cpt2: spec_advance(c2, step2), ..rounded }
        } else {
            spec_scan_rows(rounded, color, step1, step2, h as nat)
        };
        if h != 0 {
            lemma_scan_rows_wf(rounded, color, step1, step2, h as nat);
        }
        lemma_fill_edges_wf(next, color, points, i + 1, j - 1, (pairs - 1) as nat);
    }
}

} // verus!
