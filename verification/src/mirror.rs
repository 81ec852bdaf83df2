use crate::polygon::Point;
use crate::polygon::PolygonView;
use crate::raster::spec_advance;
use crate::raster::spec_calc_step;
use crate::raster::spec_column;
use crate::raster::spec_edge;
use crate::raster::spec_fill_edges;
use crate::raster::spec_half;
use crate::raster::spec_scan_rows;
use crate::raster::spec_slope;
use crate::raster::Scan;
use crate::raster::COLOR_LAST_PLAIN;
use crate::raster::EDGE_INT_MASK;
use crate::util::spec_pixel_index;
use crate::video::VideoView;
use vstd::prelude::*;

verus! {

/// Columns and axes of a mirror image are smaller than this in size.
pub const MIRROR_LIMIT: i32 = 0x2000_0000;

/// Boxes of polygons that are mirrored are at most this wide.
pub const MIRROR_BOX: i32 = 0x3fff;

/// Whether the draw page of `b` is the mirror image of the draw page of
/// `a` about the column `axis`, as far as both pixels of a pair lie on
/// the page.
pub open spec fn spec_reflects(a: VideoView, b: VideoView, axis: i32) -> bool {
    &&& a.wf()
    &&& b.wf()
    &&& a.ptr1 == b.ptr1
    &&& a.width == b.width
    &&& a.height == b.height
    &&& forall|y: int, c: int|
        0 <= y < a.height && 0 <= c < a.width && 0 <= 2 * axis - c < a.width ==> b.pages[b.ptr1 as int][#[trigger] spec_pixel_index(
            y,
            c,
            a.width as int,
        )] == a.pages[a.ptr1 as int][spec_pixel_index(y, 2 * axis - c, a.width as int)]
}

/// A pixel lies in a span of a row just if it lies in that row and in
/// the columns of the span.
pub proof fn lemma_span_of_row(y: int, c: int, row: int, lo: int, hi: int, w: int)
    requires
        0 <= c < w,
        0 <= lo < w,
        0 <= hi < w,
        0 <= y,
        0 <= row,
    ensures
        (row * w + lo <= spec_pixel_index(y, c, w) < row * w + hi + 1) <==> (y == row && lo <= c <= hi),
{
    if y < row {
        assert(y * w + w <= row * w) by (nonlinear_arith)
            requires
                y < row,
                0 < w,
        ;
    } else if y > row {
        assert(row * w + w <= y * w) by (nonlinear_arith)
            requires
                row < y,
                0 < w,
        ;
    }
}

/// A scanline drawn between two edges and the scanline drawn between
/// their mirror images are mirror images, where the left edge is not
/// right of the right edge.
pub proof fn lemma_scan_row_reflects(
    a: VideoView,
    b: VideoView,
    axis: i32,
    left: u64,
    right: u64,
    mirror_left: u64,
    mirror_right: u64,
    color: u8,
    hliney: i32,
)
    requires
        spec_reflects(a, b, axis),
        color <= COLOR_LAST_PLAIN,
        hliney < a.height,
        -MIRROR_LIMIT < axis < MIRROR_LIMIT,
        -2 * MIRROR_LIMIT < spec_column(left) <= spec_column(right) < 2 * MIRROR_LIMIT,
        spec_column(mirror_left) == 2 * axis - spec_column(right),
        spec_column(mirror_right) == 2 * axis - spec_column(left),
    ensures
        spec_reflects(
            a.scan_row(left, right, color, hliney),
            b.scan_row(mirror_left, mirror_right, color, hliney),
            axis,
        ),
{
    let w = a.width as int;
    let t = a.ptr1 as int;
    let after_a = a.scan_row(left, right, color, hliney);
    let after_b = b.scan_row(mirror_left, mirror_right, color, hliney);
    a.lemma_scan_row_wf(left, right, color, hliney);
    b.lemma_scan_row_wf(mirror_left, mirror_right, color, hliney);
    a.lemma_dims();
    let x1 = spec_column(left) as int;
    let x2 = spec_column(right) as int;
    let y1 = 2 * axis - x2;
    let y2 = 2 * axis - x1;
    let lo_a = if x1 < 0 {
        0int
    } else {
        x1
    };
    let hi_a = if x2 >= w {
        w - 1
    } else {
        x2
    };
    let lo_b = if y1 < 0 {
        0int
    } else {
        y1
    };
    let hi_b = if y2 >= w {
        w - 1
    } else {
        y2
    };
    let draws_a = hliney >= 0 && x1 < w && x2 >= 0;
    let draws_b = hliney >= 0 && y1 < w && y2 >= 0;
    assert forall|y: int, c: int| 0 <= y < a.height && 0 <= c < w && 0 <= 2 * axis - c < w implies after_b.pages[t][#[trigger] spec_pixel_index(
        y,
        c,
        w,
    )] == after_a.pages[t][spec_pixel_index(y, 2 * axis - c, w)] by {
        let d = 2 * axis - c;
        crate::raster::lemma_row_bound(y, c, w, a.height as int);
        crate::raster::lemma_row_bound(y, d, w, a.height as int);
        assert(b.pages[t][spec_pixel_index(y, c, w)] == a.pages[t][spec_pixel_index(y, d, w)]);
        assert(a.pages[t].len() == w * a.height);
        assert(b.pages[t].len() == w * a.height);
        if draws_a {
            lemma_span_of_row(y, d, hliney as int, lo_a, hi_a, w);
        }
        if draws_b {
            lemma_span_of_row(y, c, hliney as int, lo_b, hi_b, w);
        }
    }
}

/// What the positions of an edge and of its mirror image add up to:
/// twice the axis and a whole fraction less the smallest step.
pub open spec fn spec_mirror_sum(axis: i32) -> u64 {
    (spec_edge(axis) << 1) | 0xffff
}

/// Whether the position `left` of a left edge and the position `right`
/// of a right edge are mirror images about the column `axis`.
pub open spec fn spec_mirrored(left: u64, right: u64, axis: i32) -> bool {
    left.wrapping_add(right) == spec_mirror_sum(axis)
}

/// Whether the positions of a left and a right edge are mirror images
/// once they are rounded, the left one down and the right one up.
pub open spec fn spec_weakly_mirrored(left: u64, right: u64, axis: i32) -> bool {
    spec_mirrored((left & EDGE_INT_MASK) | 0x7fff, (right & EDGE_INT_MASK) | 0x8000, axis)
}

/// Rounding the left edge down and the right edge up keeps mirror
/// images mirror images.
pub proof fn lemma_rounding_keeps_mirror(left: u64, right: u64, axis: i32)
    requires
        spec_mirrored(left, right, axis),
    ensures
        spec_weakly_mirrored(left, right, axis),
{
    let k: u64 = spec_mirror_sum(axis);
    let e: u64 = spec_edge(axis);
    assert(((e << 1) | 0xffff) & 0xffff == 0xffff) by (bit_vector);
    let l2: u64 = (left & EDGE_INT_MASK) | 0x7fff;
    let r2: u64 = (right & EDGE_INT_MASK) | 0x8000;
    assert(l2 + r2 == left + right) by (bit_vector)
        requires
            k & 0xffff == 0xffff,
            left + right == k || left + right == k + 0x1_0000_0000_0000_0000,
            l2 == (left & 0xffff_ffff_ffff_0000) | 0x7fff,
            r2 == (right & 0xffff_ffff_ffff_0000) | 0x8000,
    ;
}

/// Two columns that add up to twice the axis are mirror images once
/// they are rounded as the edges are.
pub proof fn lemma_columns_weakly_mirrored(left: i32, right: i32, axis: i32)
    requires
        left + right == 2 * axis,
    ensures
        spec_weakly_mirrored(spec_edge(left), spec_edge(right), axis),
{
    let l: u64 = spec_edge(left);
    let r: u64 = spec_edge(right);
    let k: u64 = spec_mirror_sum(axis);
    let l2: u64 = (l & EDGE_INT_MASK) | 0x7fff;
    let r2: u64 = (r & EDGE_INT_MASK) | 0x8000;
    assert(l2 + r2 == k || l2 + r2 == k + 0x1_0000_0000_0000_0000) by (bit_vector)
        requires
            left + right == 2 * axis,
            l == (left as u64) << 16,
            r == (right as u64) << 16,
            k == (((axis as u64) << 16) << 1) | 0xffff,
            l2 == (l & 0xffff_ffff_ffff_0000) | 0x7fff,
            r2 == (r & 0xffff_ffff_ffff_0000) | 0x8000,
    ;
}

/// Stepping an edge and its mirror image by opposite steps keeps them
/// mirror images.
pub proof fn lemma_step_keeps_mirror(left: u64, right: u64, axis: i32, step: i32)
    requires
        spec_mirrored(left, right, axis),
        step != i32::MIN,
    ensures
        spec_mirrored(spec_advance(left, (-step) as i32), spec_advance(right, step), axis),
        spec_mirrored(spec_advance(left, step), spec_advance(right, (-step) as i32), axis),
{
    let s: u64 = step as i64 as u64;
    let m: i32 = (-step) as i32;
    let n: u64 = m as i64 as u64;
    assert(s + n == 0 || s + n == 0x1_0000_0000_0000_0000) by (bit_vector)
        requires
            s == step as i64 as u64,
            n == m as i64 as u64,
            m == -step,
            step != -0x8000_0000i32,
    ;
}

/// The columns of an edge and of its mirror image add up to twice the
/// axis.
pub proof fn lemma_mirrored_columns(left: u64, right: u64, axis: i32)
    requires
        spec_mirrored(left, right, axis),
        -MIRROR_LIMIT < axis < MIRROR_LIMIT,
        -2 * MIRROR_LIMIT < spec_column(right) < 2 * MIRROR_LIMIT || -2 * MIRROR_LIMIT < spec_column(left) < 2
            * MIRROR_LIMIT,
    ensures
        spec_column(left) + spec_column(right) == 2 * axis,
{
    let k: u64 = spec_mirror_sum(axis);
    let a: i32 = spec_column(left);
    let b: i32 = spec_column(right);
    assert(a + b == axis + axis || a + b == axis + axis + 0x1_0000_0000 || a + b == axis + axis - 0x1_0000_0000)
        by (bit_vector)
        requires
            k == (((axis as u64) << 16) << 1) | 0xffff,
            left + right == k || left + right == k + 0x1_0000_0000_0000_0000,
            a == (left >> 16) as i32,
            b == (right >> 16) as i32,
    ;
}

/// Whether the scan of a polygon and the scan of its mirror image stand
/// alike: at the same scanline, both done or not, with pages that are
/// mirror images.
pub open spec fn spec_scans_alike(p: Scan, q: Scan, axis: i32) -> bool {
    &&& spec_reflects(p.video, q.video, axis)
    &&& p.hliney == q.hliney
    &&& p.done == q.done
    &&& p.done || p.hliney < p.video.height
}

/// The scan of one scanline of a polygon as `spec_scan_rows` makes it.
pub open spec fn spec_next_row(s: Scan, color: u8, step1: i32, step2: i32) -> Scan {
    Scan {
        video: s.video.scan_row(s.cpt1, s.cpt2, color, s.hliney),
        cpt1: spec_advance(s.cpt1, step1),
        cpt2: spec_advance(s.cpt2, step2),
        hliney: (s.hliney + 1) as i32,
        done: ((s.hliney + 1) as i32) >= s.video.height,
    }
}

/// Whether the next `count` scanlines that are drawn on the page have
/// their left edge not right of their right edge, and both edges at
/// columns of a size below twice `MIRROR_LIMIT`.
pub open spec fn spec_tame_rows(s: Scan, color: u8, step1: i32, step2: i32, count: nat) -> bool
    decreases count,
{
    if count == 0 || s.done {
        true
    } else {
        &&& s.hliney >= 0 ==> -2 * MIRROR_LIMIT < spec_column(s.cpt1) <= spec_column(s.cpt2) < 2 * MIRROR_LIMIT
        &&& spec_tame_rows(spec_next_row(s, color, step1, step2), color, step1, step2, (count - 1) as nat)
    }
}

/// Scanlines of a polygon and of its mirror image are mirror images:
/// where the edges of the two start as mirror images and move by
/// opposite steps, they stay so, and so do the pages.
pub proof fn lemma_scan_rows_reflect(p: Scan, q: Scan, axis: i32, color: u8, step1: i32, step2: i32, count: nat)
    requires
        spec_scans_alike(p, q, axis),
        spec_mirrored(q.cpt1, p.cpt2, axis),
        spec_mirrored(p.cpt1, q.cpt2, axis),
        color <= COLOR_LAST_PLAIN,
        -MIRROR_LIMIT < axis < MIRROR_LIMIT,
        step1 != i32::MIN,
        step2 != i32::MIN,
        spec_tame_rows(p, color, step1, step2, count),
    ensures
        spec_scans_alike(
            spec_scan_rows(p, color, step1, step2, count),
            spec_scan_rows(q, color, (-step2) as i32, (-step1) as i32, count),
            axis,
        ),
        spec_mirrored(
            spec_scan_rows(q, color, (-step2) as i32, (-step1) as i32, count).cpt1,
            spec_scan_rows(p, color, step1, step2, count).cpt2,
            axis,
        ),
        spec_mirrored(
            spec_scan_rows(p, color, step1, step2, count).cpt1,
            spec_scan_rows(q, color, (-step2) as i32, (-step1) as i32, count).cpt2,
            axis,
        ),
    decreases count,
{
    if count != 0 && !p.done {
        let next_p = spec_next_row(p, color, step1, step2);
        let next_q = spec_next_row(q, color, (-step2) as i32, (-step1) as i32);
        if p.hliney >= 0 {
            lemma_mirrored_columns(q.cpt1, p.cpt2, axis);
            lemma_mirrored_columns(p.cpt1, q.cpt2, axis);
            lemma_scan_row_reflects(p.video, q.video, axis, p.cpt1, p.cpt2, q.cpt1, q.cpt2, color, p.hliney);
        } else {
            assert(next_p.video == p.video);
            assert(next_q.video == q.video);
        }
        lemma_step_keeps_mirror(q.cpt1, p.cpt2, axis, step2);
        lemma_step_keeps_mirror(p.cpt1, q.cpt2, axis, step1);
        p.video.lemma_scan_row_wf(p.cpt1, p.cpt2, color, p.hliney);
        lemma_scan_rows_reflect(next_p, next_q, axis, color, step1, step2, (count - 1) as nat);
    }
}

/// Whether the edges of a polygon from the pair at `i` and `j` on and
/// those of its mirror image move by opposite steps and span the same
/// scanlines.
pub open spec fn spec_edges_mirror(points: Seq<Point>, mirror: Seq<Point>, i: int, j: int, pairs: nat) -> bool
    decreases pairs,
{
    if pairs == 0 {
        true
    } else {
        &&& spec_calc_step(points[j + 1], points[j]).0 != i32::MIN
        &&& spec_calc_step(points[i - 1], points[i]).0 != i32::MIN
        &&& spec_calc_step(mirror[j + 1], mirror[j]).0 == -spec_calc_step(points[i - 1], points[i]).0
        &&& spec_calc_step(mirror[i - 1], mirror[i]).0 == -spec_calc_step(points[j + 1], points[j]).0
        &&& spec_calc_step(mirror[i - 1], mirror[i]).1 == spec_calc_step(points[i - 1], points[i]).1
        &&& spec_edges_mirror(points, mirror, i + 1, j - 1, (pairs - 1) as nat)
    }
}

/// The scan after one pair of edges as `spec_fill_edges` makes it.
pub open spec fn spec_next_pair(s: Scan, color: u8, points: Seq<Point>, i: int, j: int) -> Scan {
    let step1 = spec_calc_step(points[j + 1], points[j]).0;
    let (step2, h) = spec_calc_step(points[i - 1], points[i]);
    let c1 = (s.cpt1 & EDGE_INT_MASK) | 0x7fff;
    let c2 = (s.cpt2 & EDGE_INT_MASK) | 0x8000;
    let rounded = Scan { cpt1: c1, cpt2: c2, ..s };
    if h == 0 {
        Scan { cpt1: spec_advance(c1, step1), cpt2: spec_advance(c2, step2), ..rounded }
    } else {
        spec_scan_rows(rounded, color, step1, step2, h as nat)
    }
}

/// Whether all scanlines of the pairs of edges from `i` and `j` on that
/// are drawn on the page have their left edge not right of their right
/// edge, and both at columns of a size below twice `MIRROR_LIMIT`.
pub open spec fn spec_tame_edges(s: Scan, color: u8, points: Seq<Point>, i: int, j: int, pairs: nat) -> bool
    decreases pairs,
{
    if pairs == 0 || s.done {
        true
    } else {
        &&& spec_tame_rows(
            (Scan { cpt1: (s.cpt1 & EDGE_INT_MASK) | 0x7fff, cpt2: (s.cpt2 & EDGE_INT_MASK) | 0x8000, ..s }),
            color,
            spec_calc_step(points[j + 1], points[j]).0,
            spec_calc_step(points[i - 1], points[i]).0,
            spec_calc_step(points[i - 1], points[i]).1 as nat,
        )
        &&& spec_tame_edges(spec_next_pair(s, color, points, i, j), color, points, i + 1, j - 1, (pairs - 1) as nat)
    }
}

/// The pairs of edges of a polygon and of its mirror image draw mirror
/// images.
pub proof fn lemma_fill_edges_reflect(
    p: Scan,
    q: Scan,
    axis: i32,
    color: u8,
    points: Seq<Point>,
    mirror: Seq<Point>,
    i: int,
    j: int,
    pairs: nat,
)
    requires
        spec_scans_alike(p, q, axis),
        spec_weakly_mirrored(q.cpt1, p.cpt2, axis),
        spec_weakly_mirrored(p.cpt1, q.cpt2, axis),
        color <= COLOR_LAST_PLAIN,
        -MIRROR_LIMIT < axis < MIRROR_LIMIT,
        spec_edges_mirror(points, mirror, i, j, pairs),
        spec_tame_edges(p, color, points, i, j, pairs),
    ensures
        spec_reflects(
            spec_fill_edges(p, color, points, i, j, pairs).video,
            spec_fill_edges(q, color, mirror, i, j, pairs).video,
            axis,
        ),
    decreases pairs,
{
    if pairs != 0 && !p.done {
        let step1 = spec_calc_step(points[j + 1], points[j]).0;
        let (step2, h) = spec_calc_step(points[i - 1], points[i]);
        let rounded_p = Scan { cpt1: (p.cpt1 & EDGE_INT_MASK) | 0x7fff, cpt2: (p.cpt2 & EDGE_INT_MASK) | 0x8000, ..p };
        let rounded_q = Scan { cpt1: (q.cpt1 & EDGE_INT_MASK) | 0x7fff, cpt2: (q.cpt2 & EDGE_INT_MASK) | 0x8000, ..q };
        let next_p = spec_next_pair(p, color, points, i, j);
        let next_q = spec_next_pair(q, color, mirror, i, j);
        assert(spec_calc_step(mirror[j + 1], mirror[j]).0 == (-step2) as i32);
        assert(spec_calc_step(mirror[i - 1], mirror[i]).0 == (-step1) as i32);
        assert(spec_calc_step(mirror[i - 1], mirror[i]).1 == h);
        if h == 0 {
            lemma_step_keeps_mirror(rounded_q.cpt1, rounded_p.cpt2, axis, step2);
            lemma_step_keeps_mirror(rounded_p.cpt1, rounded_q.cpt2, axis, step1);
        } else {
            lemma_scan_rows_reflect(rounded_p, rounded_q, axis, color, step1, step2, h as nat);
        }
        lemma_rounding_keeps_mirror(next_q.cpt1, next_p.cpt2, axis);
        lemma_rounding_keeps_mirror(next_p.cpt1, next_q.cpt2, axis);
        lemma_fill_edges_reflect(next_p, next_q, axis, color, points, mirror, i + 1, j - 1, (pairs - 1) as nat);
    }
}

/// The mirror image of a polygon in its box: the vertices in the other
/// order, each as far from the right side of the box as it was from the
/// left.
pub open spec fn spec_mirror_polygon(polygon: PolygonView) -> PolygonView {
    PolygonView {
        points: Seq::new(
            polygon.points.len(),
            |k: int|
                Point {
                    x: (polygon.bbw - polygon.points[polygon.points.len() - 1 - k].x) as i32,
                    y: polygon.points[polygon.points.len() - 1 - k].y,
                },
        ),
        ..polygon
    }
}

/// Whether a polygon has a mirror image that draws as its mirror image:
/// its box is of an even width of at most `MIRROR_BOX`, its vertices
/// lie in the width of the box, and the two edges of each pair span the
/// same scanlines.
pub open spec fn spec_mirrorable(polygon: PolygonView) -> bool {
    &&& polygon.wf()
    &&& polygon.points.len() >= 2
    &&& polygon.bbw <= MIRROR_BOX
    &&& polygon.bbw % 2 == 0
    &&& forall|k: int| 0 <= k < polygon.points.len() ==> 0 <= (#[trigger] polygon.points[k]).x <= polygon.bbw
    &&& forall|i: int|
        1 <= i < polygon.points.len() / 2 ==> (#[trigger] spec_calc_step(polygon.points[i - 1], polygon.points[i])).1
            == spec_calc_step(polygon.points[polygon.points.len() - i], polygon.points[polygon.points.len() - 1 - i]).1
}

/// The state in which the scan of a polygon starts.
pub open spec fn spec_scan_start(video: VideoView, polygon: PolygonView, point: Point) -> Scan {
    let n = polygon.points.len() as int;
    let x1 = point.x.wrapping_sub(spec_half(polygon.bbw as i32));
    Scan {
        video,
        cpt1: spec_edge(x1.wrapping_add(polygon.points[n - 1].x)),
        cpt2: spec_edge(polygon.points[0].x.wrapping_add(x1)),
        hliney: point.y.wrapping_sub(spec_half(polygon.bbh as i32)),
        done: false,
    }
}

/// Whether every scanline of a polygon that is drawn on the page has
/// its left edge not right of its right edge, and both at columns of a
/// size below twice `MIRROR_LIMIT`.
pub open spec fn spec_tame_polygon(video: VideoView, polygon: PolygonView, color: u8, point: Point) -> bool {
    spec_tame_edges(
        spec_scan_start(video, polygon, point),
        color,
        polygon.points,
        1,
        polygon.points.len() - 2,
        (polygon.points.len() / 2 - 1) as nat,
    )
}

/// The slope multiplier of an edge is at most `0x4000` in size.
pub proof fn lemma_slope_bounds(dy: i32)
    ensures
        -0x4000 <= spec_slope(dy) <= 0x4000,
{
    if dy > 0 {
        assert(0 <= 0x4000int / (dy as int) <= 0x4000) by (nonlinear_arith)
            requires
                dy > 0,
        ;
    } else if dy < 0 {
        assert(0 <= 0x4000int / (-(dy as int)) <= 0x4000) by (nonlinear_arith)
            requires
                dy < 0,
        ;
    }
}

/// The mirror image of an edge steps the other way by as much and spans
/// the same scanlines.
pub proof fn lemma_mirror_step(from: Point, to: Point, width: int)
    requires
        0 <= from.x <= width,
        0 <= to.x <= width,
        width <= MIRROR_BOX,
    ensures
        spec_calc_step(from, to).0 != i32::MIN,
        spec_calc_step(
            (Point { x: (width - from.x) as i32, y: from.y }),
            (Point { x: (width - to.x) as i32, y: to.y }),
        ).0 == -spec_calc_step(from, to).0,
        spec_calc_step(
            (Point { x: (width - from.x) as i32, y: from.y }),
            (Point { x: (width - to.x) as i32, y: to.y }),
        ).1 == spec_calc_step(from, to).1,
{
    let dy = to.y.wrapping_sub(from.y);
    let m = spec_slope(dy) as int;
    lemma_slope_bounds(dy);
    let d = to.x - from.x;
    assert(-0x3fff * 0x4000 <= d * m <= 0x3fff * 0x4000) by (nonlinear_arith)
        requires
            -0x3fff <= d <= 0x3fff,
            -0x4000 <= m <= 0x4000,
    ;
    assert((-d) * m == -(d * m)) by (nonlinear_arith);
    assert(to.x.wrapping_sub(from.x) == d);
    assert(to.x.wrapping_sub(from.x).wrapping_mul(spec_slope(dy)) == d * m);
    assert(((width - to.x) as i32).wrapping_sub((width - from.x) as i32) == -d);
    assert(((width - to.x) as i32).wrapping_sub((width - from.x) as i32).wrapping_mul(spec_slope(dy)) == -(d * m));
}

/// The edges of a polygon that has a mirror image and those of the
/// mirror image move by opposite steps and span the same scanlines.
pub proof fn lemma_edges_mirror(polygon: PolygonView, i: int, pairs: nat)
    requires
        spec_mirrorable(polygon),
        1 <= i,
        i + pairs == polygon.points.len() / 2,
    ensures
        spec_edges_mirror(
            polygon.points,
            spec_mirror_polygon(polygon).points,
            i,
            polygon.points.len() - 1 - i,
            pairs,
        ),
    decreases pairs,
{
    if pairs != 0 {
        let n = polygon.points.len() as int;
        let j = n - 1 - i;
        let points = polygon.points;
        let mirror = spec_mirror_polygon(polygon).points;
        let width = polygon.bbw as int;
        assert(mirror[j + 1] == (Point { x: (width - points[i - 1].x) as i32, y: points[i - 1].y }));
        assert(mirror[j] == (Point { x: (width - points[i].x) as i32, y: points[i].y }));
        assert(mirror[i - 1] == (Point { x: (width - points[j + 1].x) as i32, y: points[j + 1].y }));
        assert(mirror[i] == (Point { x: (width - points[j].x) as i32, y: points[j].y }));
        lemma_mirror_step(points[i - 1], points[i], width);
        lemma_mirror_step(points[j + 1], points[j], width);
        assert(spec_calc_step(points[i - 1], points[i]).1 == spec_calc_step(points[n - i], points[n - 1 - i]).1);
        lemma_edges_mirror(polygon, i + 1, (pairs - 1) as nat);
    }
}

/// A polygon and its mirror image draw mirror images. Two pages that
/// are mirror images about the column of the centre stay so when the
/// polygon is filled on the one and its mirror image on the other, at
/// the same centre and in the same plain colour. This holds of a polygon
/// that has a mirror image, drawn near enough to the page and with its
/// left edge never right of its right edge.
pub proof fn lemma_fill_polygon_reflects(a: VideoView, b: VideoView, polygon: PolygonView, color: u8, point: Point)
    requires
        spec_reflects(a, b, point.x),
        color <= COLOR_LAST_PLAIN,
        -MIRROR_LIMIT < point.x < MIRROR_LIMIT,
        spec_mirrorable(polygon),
        spec_tame_polygon(a, polygon, color, point),
    ensures
        spec_reflects(
            a.fill_polygon(polygon, color, point),
            b.fill_polygon(spec_mirror_polygon(polygon), color, point),
            point.x,
        ),
{
    let mirror = spec_mirror_polygon(polygon);
    let n = polygon.points.len() as int;
    let w = a.width as int;
    let t = a.ptr1 as int;
    a.lemma_fill_polygon_wf(polygon, color, point);
    b.lemma_fill_polygon_wf(mirror, color, point);
    if polygon.bbw == 0 && polygon.bbh == 1 && n == 4 {
        let after_a = a.draw_point(color, point);
        let after_b = b.draw_point(color, point);
        if 0 <= point.x < a.width && 0 <= point.y < a.height {
            assert forall|y: int, c: int| 0 <= y < a.height && 0 <= c < w && 0 <= 2 * point.x - c < w implies after_b.pages[t][#[trigger] spec_pixel_index(
                y,
                c,
                w,
            )] == after_a.pages[t][spec_pixel_index(y, 2 * point.x - c, w)] by {
                let d = 2 * point.x - c;
                crate::raster::lemma_row_bound(y, c, w, a.height as int);
                crate::raster::lemma_row_bound(y, d, w, a.height as int);
                crate::raster::lemma_row_bound(point.y as int, point.x as int, w, a.height as int);
                assert(b.pages[t][spec_pixel_index(y, c, w)] == a.pages[t][spec_pixel_index(y, d, w)]);
                assert(a.pages[t].len() == w * a.height);
                assert(b.pages[t].len() == w * a.height);
                lemma_span_of_row(y, c, point.y as int, point.x as int, point.x as int, w);
                lemma_span_of_row(y, d, point.y as int, point.x as int, point.x as int, w);
            }
        }
    } else {
        let half = spec_half(polygon.bbw as i32);
        let x1 = point.x.wrapping_sub(half);
        let x2 = point.x.wrapping_add(half);
        let y1 = point.y.wrapping_sub(spec_half(polygon.bbh as i32));
        let y2 = point.y.wrapping_add(spec_half(polygon.bbh as i32));
        if !(x1 >= a.width || x2 < 0 || y1 >= a.height || y2 < 0 || n < 2) {
            let p = spec_scan_start(a, polygon, point);
            let q = spec_scan_start(b, mirror, point);
            assert(half * 2 == polygon.bbw);
            assert(x1 == point.x - half);
            let last = polygon.points[n - 1];
            let first = polygon.points[0];
            assert(mirror.points[n - 1].x == polygon.bbw - first.x);
            assert(mirror.points[0].x == polygon.bbw - last.x);
            lemma_columns_weakly_mirrored(x1.wrapping_add(mirror.points[n - 1].x), first.x.wrapping_add(x1), point.x);
            lemma_columns_weakly_mirrored(x1.wrapping_add(last.x), mirror.points[0].x.wrapping_add(x1), point.x);
            lemma_edges_mirror(polygon, 1, (n / 2 - 1) as nat);
            lemma_fill_edges_reflect(p, q, point.x, color, polygon.points, mirror.points, 1, n - 2, (n / 2 - 1) as nat);
        }
    }
}

} // verus!
