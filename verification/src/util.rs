use vstd::arithmetic::div_mod::lemma_fundamental_div_mod;
use vstd::arithmetic::div_mod::lemma_div_pos_is_pos;
use vstd::arithmetic::div_mod::lemma_mod_bound;
use vstd::prelude::*;

verus! {

/// Width of a page before it is scaled.
pub const BASE_WIDTH: usize = 320;

/// Height of a page before it is scaled.
pub const BASE_HEIGHT: usize = 200;

/// The place of the pixel in row `j` and column `i` of an image that is
/// `width` pixels wide.
pub open spec fn spec_pixel_index(j: int, i: int, width: int) -> int {
    j * width + i
}

/// An image of 320 by 200 pixels scaled by a whole factor: the pixel at
/// place `k` of the result is the pixel of `buffer` whose row and column
/// are those of `k` divided by `factor`.
pub open spec fn spec_resize(buffer: Seq<u8>, factor: u16) -> Seq<u8> {
    let width = BASE_WIDTH * factor;
    let height = BASE_HEIGHT * factor;
    Seq::new(
        (width * height) as nat,
        |k: int| buffer[((k / width) / (factor as int)) * BASE_WIDTH + (k % width) / (factor as int)],
    )
}

/// Scales an image of 320 by 200 pixels by a whole factor: each pixel of
/// the result is the pixel of `buffer` whose row and column are those of
/// the result divided by `factor`.
pub fn resize(buffer: &[u8], factor: u16) -> (r: Vec<u8>)
    requires
        buffer@.len() >= BASE_WIDTH * BASE_HEIGHT,
    ensures
        r@ == spec_resize(buffer@, factor),
        r@.len() == (BASE_WIDTH * factor) * (BASE_HEIGHT * factor),
        forall|j: int, i: int|
            0 <= j < BASE_HEIGHT * factor && 0 <= i < BASE_WIDTH * factor ==> r@[#[trigger] spec_pixel_index(
                j,
                i,
                BASE_WIDTH * factor,
            )] == buffer@[(j / (factor as int)) * BASE_WIDTH + i / (factor as int)],
{
    let f: usize = factor as usize;
    let width: usize = BASE_WIDTH * f;
    let height: usize = BASE_HEIGHT * f;
    let mut result: Vec<u8> = Vec::new();
    let mut j: usize = 0;
    assert(0 * width == 0);
    while j < height
        invariant
            j <= height,
            f == factor,
            width == BASE_WIDTH * f,
            height == BASE_HEIGHT * f,
            buffer@.len() >= BASE_WIDTH * BASE_HEIGHT,
            result@.len() == j * width,
            forall|jj: int, ii: int|
                0 <= jj < j && 0 <= ii < width ==> #[trigger] spec_pixel_index(jj, ii, width as int) < result@.len()
                    && result@[spec_pixel_index(jj, ii, width as int)] == buffer@[(jj / (f as int)) * BASE_WIDTH + ii / (
                f as int)],
        decreases height - j,
    {
        let mut i: usize = 0;
        let src_row: usize = j / f;
        assert(src_row < BASE_HEIGHT) by (nonlinear_arith)
            requires
                src_row == j as int / f as int,
                j < BASE_HEIGHT * f,
                f > 0,
        ;
        while i < width
            invariant
                i <= width,
                j < height,
                f == factor,
                f > 0,
                src_row == j as int / f as int,
                src_row < BASE_HEIGHT,
                width == BASE_WIDTH * f,
                height == BASE_HEIGHT * f,
                buffer@.len() >= BASE_WIDTH * BASE_HEIGHT,
                result@.len() == j * width + i,
                forall|jj: int, ii: int|
                    (0 <= jj < j && 0 <= ii < width) || (jj == j && 0 <= ii < i) ==> #[trigger] spec_pixel_index(
                        jj,
                        ii,
                        width as int,
                    ) < result@.len() && result@[spec_pixel_index(jj, ii, width as int)] == buffer@[(jj / (f as int))
                        * BASE_WIDTH + ii / (f as int)],
            decreases width - i,
        {
            let src_col: usize = i / f;
            assert(src_col < BASE_WIDTH) by (nonlinear_arith)
                requires
                    src_col == i as int / f as int,
                    i < BASE_WIDTH * f,
                    f > 0,
            ;
            result.push(buffer[src_row * BASE_WIDTH + src_col]);
            i = i + 1;
        }
        j = j + 1;
        assert(j * width == (j - 1) * width + width) by (nonlinear_arith);
    }
    assert(height * width == (BASE_WIDTH * factor) * (BASE_HEIGHT * factor)) by (nonlinear_arith)
        requires
            width == BASE_WIDTH * factor,
            height == BASE_HEIGHT * factor,
    ;
    proof {
        let w = width as int;
        let h = height as int;
        assert(w * h == h * w) by (nonlinear_arith);
        assert forall|k: int| 0 <= k < w * h implies #[trigger] result@[k] == spec_resize(buffer@, factor)[k] by {
            lemma_fundamental_div_mod(k, w);
            lemma_mod_bound(k, w);
            lemma_div_pos_is_pos(k, w);
            let j = k / w;
            let i = k % w;
            assert(j < h) by (nonlinear_arith)
                requires
                    k == w * j + i,
                    0 <= i,
                    k < w * h,
                    w > 0,
            ;
            assert(w * j == j * w) by (nonlinear_arith);
            assert(spec_pixel_index(j, i, w) == k);
        }
        assert(result@ =~= spec_resize(buffer@, factor));
    }
    result
}

} // verus!
