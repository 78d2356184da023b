//! The layout engine: arranges the source images on one canvas as a grid,
//! a single row or a single column, scaling every cell uniformly so that
//! the canvas stays within the configured width and height limits.

use vstd::prelude::*;
use vstd::arithmetic::div_mod::{
    lemma_div_is_ordered,
    lemma_div_multiples_vanish,
    lemma_fundamental_div_mod,
    lemma_mod_multiples_basic,
    lemma_mod_multiples_vanish,
    lemma_mod_pos_bound,
    lemma_small_mod,
};
use vstd::arithmetic::mul::{
    lemma_mul_inequality,
    lemma_mul_is_commutative,
    lemma_mul_is_distributive_add,
    lemma_mul_is_distributive_add_other_way,
};
use crate::config::{Alignment, StitchConfig};
use crate::error::StitchError;

verus! {

/// The least grid side reached from candidate `c`: the smallest `s >= c`
/// with `s * s >= n` (capped at `n`).
pub open spec fn grid_side_from(n: int, c: int) -> int
    decreases n - c,
{
    if c < 1 || n < 1 {
        1
    } else if c >= n {
        n
    } else if c * c >= n {
        c
    } else {
        grid_side_from(n, c + 1)
    }
}

/// The column count each alignment mode lays out with.
pub open spec fn spec_cols(a: Alignment, n: int) -> int {
    match a {
        Alignment::Grid => grid_side_from(n, 1),
        Alignment::Horizontal => n,
        Alignment::Vertical => 1,
    }
}

/// Width and height of one source image, in pixels.
#[derive(Debug, Clone, Copy, PartialEq, Eq, Structural)]
pub struct Dims {
    pub w: u32,
    pub h: u32,
}

/// The cell assigned to one source image: its offset and extent within
/// the canvas.
#[derive(Debug, Clone, Copy, PartialEq, Eq, Structural)]
pub struct Rect {
    pub x: u32,
    pub y: u32,
    pub w: u32,
    pub h: u32,
}

/// One cell per source image, in collection order, plus the canvas size
/// and the column count of the grid they were laid out on.
#[derive(Debug, Clone)]
pub struct Layout {
    pub cells: Vec<Rect>,
    pub cols: usize,
    pub width: u32,
    pub height: u32,
}

/// The larger of two integers.
pub open spec fn maxi(a: int, b: int) -> int {
    if a >= b {
        a
    } else {
        b
    }
}

/// Total width of the images at indices `[from, to)`.
pub open spec fn sum_w(sizes: Seq<Dims>, from: int, to: int) -> int
    decreases to - from,
{
    if to <= from {
        0
    } else {
        sum_w(sizes, from, to - 1) + sizes[to - 1].w
    }
}

/// Tallest height among the images at indices `[from, to)` (0 if empty).
pub open spec fn max_h(sizes: Seq<Dims>, from: int, to: int) -> int
    decreases to - from,
{
    if to <= from {
        0
    } else {
        maxi(max_h(sizes, from, to - 1), sizes[to - 1].h as int)
    }
}

/// Index one past the last image of the row that starts at `start`.
pub open spec fn row_end(n: int, start: int, cols: int) -> int {
    if start + cols <= n {
        start + cols
    } else {
        n
    }
}

/// Unscaled canvas width from row `start` on: the widest row, each row
/// being the sum of its images' widths.
pub open spec fn cand_w_from(sizes: Seq<Dims>, cols: int, start: int) -> int
    decreases sizes.len() - start,
{
    if start < 0 || cols < 1 || start >= sizes.len() {
        0
    } else {
        let e = row_end(sizes.len() as int, start, cols);
        maxi(sum_w(sizes, start, e), cand_w_from(sizes, cols, e))
    }
}

/// Unscaled canvas height from row `start` on: the sum over rows of each
/// row's tallest image.
pub open spec fn cand_h_from(sizes: Seq<Dims>, cols: int, start: int) -> int
    decreases sizes.len() - start,
{
    if start < 0 || cols < 1 || start >= sizes.len() {
        0
    } else {
        let e = row_end(sizes.len() as int, start, cols);
        max_h(sizes, start, e) + cand_h_from(sizes, cols, e)
    }
}

/// Whether the unscaled canvas exceeds a limit.
pub open spec fn needs_scale(cw: int, ch: int, wl: int, hl: int) -> bool {
    cw > wl || ch > hl
}

/// Numerator of the uniform scale factor: the binding limit, or 1 when
/// the unscaled canvas already fits.
pub open spec fn scale_num(cw: int, ch: int, wl: int, hl: int) -> int {
    if !needs_scale(cw, ch, wl, hl) {
        1
    } else if wl * ch <= hl * cw {
        wl
    } else {
        hl
    }
}

/// Denominator of the uniform scale factor: the unscaled extent in the
/// binding dimension, or 1 when the unscaled canvas already fits.
pub open spec fn scale_den(cw: int, ch: int, wl: int, hl: int) -> int {
    if !needs_scale(cw, ch, wl, hl) {
        1
    } else if wl * ch <= hl * cw {
        cw
    } else {
        ch
    }
}

/// An extent scaled by the uniform factor, rounded down.
pub open spec fn scaled(v: int, num: int, den: int) -> int {
    (v * num) / den
}

/// Column count demanded by each alignment mode: as square as possible
/// for the grid (ties toward fewer rows), one row, or one column.
pub open spec fn cols_ok(a: Alignment, n: int, cols: int) -> bool {
    match a {
        Alignment::Grid => cols >= 1 && cols * cols >= n && (cols - 1) * (cols - 1) < n,
        Alignment::Horizontal => cols == n,
        Alignment::Vertical => cols == 1,
    }
}

/// Two cells share no pixel.
pub open spec fn rects_disjoint(a: Rect, b: Rect) -> bool {
    ||| a.x + a.w <= b.x
    ||| b.x + b.w <= a.x
    ||| a.y + a.h <= b.y
    ||| b.y + b.h <= a.y
}

/// The canvas pixel buffer (4 bytes per pixel) must be addressable.
pub open spec fn canvas_fits_memory(width: int, height: int) -> bool {
    width * height * 4 <= usize::MAX
}

/// What `compute_layout` promises of a returned layout: the grid shape
/// follows the alignment; every cell is the source's own size scaled by
/// the one uniform factor; the canvas is the scaled unscaled-candidate
/// size (at least 1x1) and stays within both limits; every cell lies in
/// the canvas; no two cells overlap; and the cells stand row-major at
/// cumulative offsets, each row one band below the one before, so the
/// whole layout is determined by the sizes and the configuration.
pub open spec fn layout_matches(sizes: Seq<Dims>, c: StitchConfig, l: Layout) -> bool {
    let n = sizes.len() as int;
    let cols = l.cols as int;
    let cw = cand_w_from(sizes, cols, 0);
    let ch = cand_h_from(sizes, cols, 0);
    let num = scale_num(cw, ch, c.width_limit as int, c.height_limit as int);
    let den = scale_den(cw, ch, c.width_limit as int, c.height_limit as int);
    &&& cols_ok(c.alignment, n, cols)
    &&& l.cells.len() == n
    &&& l.width == maxi(1, scaled(cw, num, den))
    &&& l.height == maxi(1, scaled(ch, num, den))
    &&& l.width <= c.width_limit
    &&& l.height <= c.height_limit
    &&& (forall|i: int|
        0 <= i < n ==> (#[trigger] l.cells[i]).w == scaled(sizes[i].w as int, num, den))
    &&& (forall|i: int|
        0 <= i < n ==> (#[trigger] l.cells[i]).h == scaled(sizes[i].h as int, num, den))
    &&& (forall|i: int|
        0 <= i < n ==> (#[trigger] l.cells[i]).x + l.cells[i].w <= l.width && l.cells[i].y
            + l.cells[i].h <= l.height)
    &&& (forall|i: int, j: int|
        0 <= i < n && 0 <= j < n && i != j ==> rects_disjoint(
            #[trigger] l.cells[i],
            #[trigger] l.cells[j],
        ))
    &&& (n >= 1 ==> l.cells[0].x == 0 && l.cells[0].y == 0)
    &&& (forall|i: int|
        1 <= i < n && i % cols != 0 ==> (#[trigger] l.cells[i]).x == l.cells[i - 1].x + l.cells[
            i - 1].w && l.cells[i].y == l.cells[i - 1].y)
    &&& (forall|i: int|
        1 <= i < n && i % cols == 0 ==> (#[trigger] l.cells[i]).x == 0 && l.cells[i].y == l.cells[
            i - 1].y + scaled(max_h(sizes, i - cols, i), num, den))
    &&& (!needs_scale(cw, ch, c.width_limit as int, c.height_limit as int) ==> l.width == cw
        && l.height == ch && (forall|i: int|
        0 <= i < n ==> (#[trigger] l.cells[i]).w == sizes[i].w && l.cells[i].h == sizes[i].h))
}

/// The canvas width a layout for these images must have: the unscaled
/// candidate width under the uniform factor, and at least 1.
pub open spec fn spec_canvas_width(sizes: Seq<Dims>, c: StitchConfig) -> int {
    let cols = spec_cols(c.alignment, sizes.len() as int);
    let cw = cand_w_from(sizes, cols, 0);
    let ch = cand_h_from(sizes, cols, 0);
    maxi(
        1,
        scaled(
            cw,
            scale_num(cw, ch, c.width_limit as int, c.height_limit as int),
            scale_den(cw, ch, c.width_limit as int, c.height_limit as int),
        ),
    )
}

/// The canvas height a layout for these images must have.
pub open spec fn spec_canvas_height(sizes: Seq<Dims>, c: StitchConfig) -> int {
    let cols = spec_cols(c.alignment, sizes.len() as int);
    let cw = cand_w_from(sizes, cols, 0);
    let ch = cand_h_from(sizes, cols, 0);
    maxi(
        1,
        scaled(
            ch,
            scale_num(cw, ch, c.width_limit as int, c.height_limit as int),
            scale_den(cw, ch, c.width_limit as int, c.height_limit as int),
        ),
    )
}

/// When `compute_layout` must fail: a zero limit leaves no room for any
/// canvas, and a canvas whose pixel buffer cannot be addressed cannot be
/// composited.
pub open spec fn layout_infeasible(sizes: Seq<Dims>, c: StitchConfig) -> bool {
    let cols = spec_cols(c.alignment, sizes.len() as int);
    let cw = cand_w_from(sizes, cols, 0);
    let ch = cand_h_from(sizes, cols, 0);
    let num = scale_num(cw, ch, c.width_limit as int, c.height_limit as int);
    let den = scale_den(cw, ch, c.width_limit as int, c.height_limit as int);
    ||| c.width_limit == 0
    ||| c.height_limit == 0
    ||| !canvas_fits_memory(maxi(1, scaled(cw, num, den)), maxi(1, scaled(ch, num, den)))
}

proof fn lemma_sum_w_nonneg(sizes: Seq<Dims>, from: int, to: int)
    ensures
        sum_w(sizes, from, to) >= 0,
    decreases to - from,
{
    if to > from {
        lemma_sum_w_nonneg(sizes, from, to - 1);
    }
}

proof fn lemma_sum_w_monotone(sizes: Seq<Dims>, from: int, to1: int, to2: int)
    requires
        to1 <= to2,
    ensures
        sum_w(sizes, from, to1) <= sum_w(sizes, from, to2),
    decreases to2 - to1,
{
    if to1 < to2 {
        lemma_sum_w_monotone(sizes, from, to1, to2 - 1);
    }
}

/// Each image's width is at most its row's total width.
proof fn lemma_sum_w_lower(sizes: Seq<Dims>, from: int, to: int, i: int)
    requires
        from <= i < to,
    ensures
        sizes[i].w <= sum_w(sizes, from, to),
    decreases to - from,
{
    lemma_sum_w_nonneg(sizes, from, to - 1);
    if i < to - 1 {
        lemma_sum_w_lower(sizes, from, to - 1, i);
    }
}

proof fn lemma_max_h_nonneg(sizes: Seq<Dims>, from: int, to: int)
    ensures
        max_h(sizes, from, to) >= 0,
    decreases to - from,
{
    if to > from {
        lemma_max_h_nonneg(sizes, from, to - 1);
    }
}

/// Each image's height is at most its row's tallest height.
proof fn lemma_max_h_upper(sizes: Seq<Dims>, from: int, to: int, i: int)
    requires
        from <= i < to,
    ensures
        sizes[i].h <= max_h(sizes, from, to),
    decreases to - from,
{
    if i < to - 1 {
        lemma_max_h_upper(sizes, from, to - 1, i);
    }
}

proof fn lemma_cand_w_nonneg(sizes: Seq<Dims>, cols: int, start: int)
    ensures
        cand_w_from(sizes, cols, start) >= 0,
    decreases sizes.len() - start,
{
    if 0 <= start && cols >= 1 && start < sizes.len() {
        lemma_sum_w_nonneg(sizes, start, row_end(sizes.len() as int, start, cols));
        lemma_cand_w_nonneg(sizes, cols, row_end(sizes.len() as int, start, cols));
    }
}

proof fn lemma_cand_h_nonneg(sizes: Seq<Dims>, cols: int, start: int)
    ensures
        cand_h_from(sizes, cols, start) >= 0,
    decreases sizes.len() - start,
{
    if 0 <= start && cols >= 1 && start < sizes.len() {
        lemma_max_h_nonneg(sizes, start, row_end(sizes.len() as int, start, cols));
        lemma_cand_h_nonneg(sizes, cols, row_end(sizes.len() as int, start, cols));
    }
}

/// Division distributes over addition of numerators, up to rounding loss.
proof fn lemma_div_superadd(p: int, q: int, d: int)
    requires
        p >= 0,
        q >= 0,
        d >= 1,
    ensures
        p / d + q / d <= (p + q) / d,
{
    lemma_fundamental_div_mod(p, d);
    lemma_fundamental_div_mod(q, d);
    lemma_mod_pos_bound(p, d);
    lemma_mod_pos_bound(q, d);
    let s = d * (p / d) + d * (q / d);
    assert(s == d * (p / d + q / d)) by {
        lemma_mul_is_distributive_add(d, p / d, q / d);
    }
    lemma_div_multiples_vanish(p / d + q / d, d);
    lemma_div_is_ordered(s, p + q, d);
}

/// Scaling is monotone in the extent being scaled.
proof fn lemma_scaled_monotone(a: int, b: int, num: int, den: int)
    requires
        0 <= a <= b,
        0 <= num,
        1 <= den,
    ensures
        scaled(a, num, den) <= scaled(b, num, den),
{
    lemma_mul_inequality(a, b, num);
    lemma_div_is_ordered(a * num, b * num, den);
}

/// Scaling two extents separately loses no more than scaling their sum.
proof fn lemma_scaled_superadd(a: int, b: int, num: int, den: int)
    requires
        a >= 0,
        b >= 0,
        num >= 0,
        den >= 1,
    ensures
        scaled(a, num, den) + scaled(b, num, den) <= scaled(a + b, num, den),
{
    assert((a + b) * num == a * num + b * num) by {
        lemma_mul_is_distributive_add_other_way(num, a, b);
    }
    assert(a * num >= 0) by (nonlinear_arith)
        requires
            a >= 0,
            num >= 0,
    ;
    assert(b * num >= 0) by (nonlinear_arith)
        requires
            b >= 0,
            num >= 0,
    ;
    lemma_div_superadd(a * num, b * num, den);
}

/// With the scale factor at most one, no extent grows.
proof fn lemma_scaled_le_self(v: int, num: int, den: int)
    requires
        v >= 0,
        0 <= num <= den,
        1 <= den,
    ensures
        scaled(v, num, den) <= v,
{
    lemma_mul_inequality(num, den, v);
    assert(v * num == num * v) by (nonlinear_arith);
    assert(v * den == den * v) by (nonlinear_arith);
    lemma_div_is_ordered(v * num, v * den, den);
    lemma_div_multiples_vanish(v, den);
}

/// The chosen factor is at most one, and scales the unscaled candidate
/// canvas to within both limits.
proof fn lemma_scale_bounds(cw: int, ch: int, wl: int, hl: int)
    requires
        1 <= cw,
        1 <= ch,
        1 <= wl,
        1 <= hl,
    ensures
        scale_num(cw, ch, wl, hl) >= 1,
        scale_num(cw, ch, wl, hl) <= scale_den(cw, ch, wl, hl),
        1 <= scale_den(cw, ch, wl, hl),
        scaled(cw, scale_num(cw, ch, wl, hl), scale_den(cw, ch, wl, hl)) <= wl,
        scaled(ch, scale_num(cw, ch, wl, hl), scale_den(cw, ch, wl, hl)) <= hl,
{
    let num = scale_num(cw, ch, wl, hl);
    let den = scale_den(cw, ch, wl, hl);
    if !needs_scale(cw, ch, wl, hl) {
        lemma_div_multiples_vanish(cw, 1);
        lemma_div_multiples_vanish(ch, 1);
    } else if wl * ch <= hl * cw {
        assert(wl <= cw) by (nonlinear_arith)
            requires
                wl * ch <= hl * cw,
                cw > wl || ch > hl,
                1 <= cw && 1 <= ch && 1 <= wl && 1 <= hl,
        ;
        assert(scaled(cw, wl, cw) == wl) by {
            assert(cw * wl == wl * cw) by (nonlinear_arith);
            lemma_div_multiples_vanish(wl, cw);
        }
        assert(scaled(ch, wl, cw) <= hl) by {
            assert(ch * wl <= cw * hl) by (nonlinear_arith)
                requires
                    wl * ch <= hl * cw,
            ;
            lemma_div_is_ordered(ch * wl, cw * hl, cw);
            lemma_div_multiples_vanish(hl, cw);
        }
    } else {
        assert(hl <= ch) by (nonlinear_arith)
            requires
                wl * ch > hl * cw,
                cw > wl || ch > hl,
                1 <= cw && 1 <= ch && 1 <= wl && 1 <= hl,
        ;
        assert(scaled(ch, hl, ch) == hl) by {
            assert(ch * hl == hl * ch) by (nonlinear_arith);
            lemma_div_multiples_vanish(hl, ch);
        }
        assert(scaled(cw, hl, ch) <= wl) by {
            assert(cw * hl <= ch * wl) by (nonlinear_arith)
                requires
                    wl * ch > hl * cw,
                    1 <= cw && 1 <= ch && 1 <= wl && 1 <= hl,
            ;
            lemma_div_is_ordered(cw * hl, ch * wl, ch);
            lemma_div_multiples_vanish(wl, ch);
        }
    }
}

/// Law: a layout that `compute_layout` returns never exceeds the
/// configured limits: for every source list and every configuration the
/// canvas width is at most `width_limit` and the canvas height at most
/// `height_limit`.
pub proof fn lemma_canvas_within_limits(sizes: Seq<Dims>, c: StitchConfig, l: Layout)
    requires
        layout_matches(sizes, c, l),
    ensures
        l.width <= c.width_limit,
        l.height <= c.height_limit,
{
}

/// Law: the layout for a single source that fits within both limits is
/// that source's own dimensions, with its one cell at the origin.
pub proof fn lemma_single_source_layout(sizes: Seq<Dims>, c: StitchConfig, l: Layout)
    requires
        layout_matches(sizes, c, l),
        sizes.len() == 1,
        1 <= sizes[0].w <= c.width_limit,
        1 <= sizes[0].h <= c.height_limit,
    ensures
        l.width == sizes[0].w,
        l.height == sizes[0].h,
        l.cells[0] == (Rect { x: 0, y: 0, w: sizes[0].w, h: sizes[0].h }),
{
    let cols = l.cols as int;
    assert(cols == 1) by {
        if c.alignment is Grid {
            assert((cols - 1) * (cols - 1) < 1 && cols >= 1);
            assert(cols == 1) by (nonlinear_arith)
                requires
                    (cols - 1) * (cols - 1) < 1,
                    cols >= 1,
            ;
        }
    }
    reveal_with_fuel(cand_w_from, 3);
    reveal_with_fuel(cand_h_from, 3);
    reveal_with_fuel(sum_w, 3);
    reveal_with_fuel(max_h, 3);
    assert(row_end(1, 0, 1) == 1);
    assert(sum_w(sizes, 0, 1) == sizes[0].w);
    assert(max_h(sizes, 0, 1) == sizes[0].h);
    assert(cand_w_from(sizes, 1, 1) == 0);
    assert(cand_h_from(sizes, 1, 1) == 0);
    assert(cand_w_from(sizes, 1, 0) == sizes[0].w);
    assert(cand_h_from(sizes, 1, 0) == sizes[0].h);
    assert(!needs_scale(
        sizes[0].w as int,
        sizes[0].h as int,
        c.width_limit as int,
        c.height_limit as int,
    ));
    assert(l.cells[0].x + l.cells[0].w <= l.width && l.cells[0].y + l.cells[0].h <= l.height);
}

/// Whether `c * c` already reaches `n`.
fn square_reaches(c: usize, n: usize) -> (r: bool)
    ensures
        r == (c * c >= n),
{
    proof {
        assert(c as int <= 0xFFFF_FFFF_FFFF_FFFFint);
        vstd::arithmetic::mul::lemma_mul_upper_bound(
            c as int,
            0xFFFF_FFFF_FFFF_FFFFint,
            c as int,
            0xFFFF_FFFF_FFFF_FFFFint,
        );
    }
    (c as u128) * (c as u128) >= (n as u128)
}

/// The smallest grid side whose square holds all `n` images.
fn grid_side(n: usize) -> (c: usize)
    requires
        1 <= n,
    ensures
        c as int == grid_side_from(n as int, 1),
        1 <= c <= n,
        c * c >= n,
        (c - 1) * (c - 1) < n,
{
    let mut c: usize = 1;
    let mut done = square_reaches(c, n);
    while !done
        invariant
            1 <= c <= n,
            ((c - 1) * (c - 1)) < n,
            done == (c * c >= n),
            grid_side_from(n as int, 1) == grid_side_from(n as int, c as int),
        decreases n - c,
    {
        proof {
            assert(c <= c * c) by (nonlinear_arith)
                requires
                    c >= 1,
            ;
            assert(grid_side_from(n as int, c as int) == grid_side_from(n as int, c as int + 1));
        }
        c = c + 1;
        done = square_reaches(c, n);
    }
    c
}

/// Computes the layout: the grid shape from the alignment, the unscaled
/// candidate canvas from the images' own sizes, the uniform downscale
/// factor that brings the candidate within both limits, and one cell per
/// image, placed row-major with cumulative offsets. Fails with
/// `LayoutInfeasible` exactly when a limit is zero or the fitted canvas
/// buffer would not be addressable.
pub fn compute_layout(sizes: &Vec<Dims>, config: &StitchConfig) -> (r: Result<
    Layout,
    StitchError,
>)
    requires
        sizes@.len() >= 1,
        forall|i: int| 0 <= i < sizes@.len() ==> 1 <= (#[trigger] sizes@[i]).w && 1 <= sizes@[i].h,
    ensures
        (r is Err) <==> layout_infeasible(sizes@, *config),
        r matches Err(e) ==> e is LayoutInfeasible,
        r matches Ok(l) ==> l.cols as int == spec_cols(config.alignment, sizes@.len() as int)
            && layout_matches(sizes@, *config, l),
{
    let ghost gsizes = sizes@;
    let n = sizes.len();
    let wl = config.width_limit;
    let hl = config.height_limit;
    if wl == 0 || hl == 0 {
        return Err(StitchError::LayoutInfeasible);
    }
    let cols = match config.alignment {
        Alignment::Grid => grid_side(n),
        Alignment::Horizontal => n,
        Alignment::Vertical => 1,
    };
    let ghost gcols = cols as int;
    proof {
        assert(gcols == spec_cols(config.alignment, n as int));
        assert(cols_ok(config.alignment, n as int, gcols));
        lemma_cand_w_nonneg(gsizes, gcols, 0);
        lemma_cand_h_nonneg(gsizes, gcols, 0);
    }
    // Unscaled candidate canvas: widest row, and sum of row heights.
    let mut cw: u128 = 0;
    let mut ch: u128 = 0;
    let mut start: usize = 0;
    while start < n
        invariant
            gsizes == sizes@,
            n == gsizes.len(),
            1 <= n,
            1 <= gcols,
            cols as int == gcols,
            0 <= start <= n,
            forall|i: int|
                0 <= i < gsizes.len() ==> 1 <= (#[trigger] gsizes[i]).w && 1 <= gsizes[i].h,
            cand_w_from(gsizes, gcols, 0) == maxi(
                cw as int,
                cand_w_from(gsizes, gcols, start as int),
            ),
            cand_h_from(gsizes, gcols, 0) == ch as int + cand_h_from(gsizes, gcols, start as int),
            cw as int <= 0xFFFF_FFFF * (start as int),
            ch as int <= 0xFFFF_FFFF * (start as int),
        decreases n - start,
    {
        let ghost starti = start as int;
        let e = if n - start > cols {
            start + cols
        } else {
            n
        };
        proof {
            assert(e as int == row_end(n as int, starti, gcols));
        }
        let mut rw: u128 = 0;
        let mut rh: u128 = 0;
        let mut j = start;
        while j < e
            invariant
                gsizes == sizes@,
                n == gsizes.len(),
                start <= j <= e <= n,
                forall|i: int|
                    0 <= i < gsizes.len() ==> 1 <= (#[trigger] gsizes[i]).w && 1 <= gsizes[i].h,
                rw as int == sum_w(gsizes, start as int, j as int),
                rh as int == max_h(gsizes, start as int, j as int),
                rw as int <= 0xFFFF_FFFF * ((j - start) as int),
                rh <= 0xFFFF_FFFF,
            decreases e - j,
        {
            let ghost ji = j as int;
            let d = sizes[j];
            rw = rw + d.w as u128;
            rh = if (d.h as u128) > rh {
                d.h as u128
            } else {
                rh
            };
            j = j + 1;
            proof {
                assert(sum_w(gsizes, start as int, ji + 1) == sum_w(gsizes, start as int, ji)
                    + gsizes[ji].w);
                assert(max_h(gsizes, start as int, ji + 1) == maxi(
                    max_h(gsizes, start as int, ji),
                    gsizes[ji].h as int,
                ));
            }
        }
        cw = if rw > cw {
            rw
        } else {
            cw
        };
        ch = ch + rh;
        start = e;
    }
    proof {
        assert(cand_w_from(gsizes, gcols, n as int) == 0);
        assert(cand_h_from(gsizes, gcols, n as int) == 0);
        assert(cw as int == cand_w_from(gsizes, gcols, 0));
        assert(ch as int == cand_h_from(gsizes, gcols, 0));
        // The candidate holds the first image, so it is at least 1x1.
        let e0 = row_end(n as int, 0, gcols);
        lemma_sum_w_lower(gsizes, 0, e0, 0);
        lemma_max_h_upper(gsizes, 0, e0, 0);
        lemma_cand_w_nonneg(gsizes, gcols, e0);
        lemma_cand_h_nonneg(gsizes, gcols, e0);
        assert(cw >= 1);
        assert(ch >= 1);
    }
    let ghost cwi = cw as int;
    let ghost chi = ch as int;
    let wl128 = wl as u128;
    let hl128 = hl as u128;
    proof {
        vstd::arithmetic::mul::lemma_mul_upper_bound(
            wl128 as int,
            0xFFFF_FFFF,
            ch as int,
            0xFFFF_FFFFint * 0xFFFF_FFFF_FFFF_FFFFint,
        );
        vstd::arithmetic::mul::lemma_mul_upper_bound(
            hl128 as int,
            0xFFFF_FFFF,
            cw as int,
            0xFFFF_FFFFint * 0xFFFF_FFFF_FFFF_FFFFint,
        );
    }
    let fits = cw <= wl128 && ch <= hl128;
    let scale: (u128, u128) = if fits {
        (1, 1)
    } else if wl128 * ch <= hl128 * cw {
        (wl128, cw)
    } else {
        (hl128, ch)
    };
    let num = scale.0;
    let den = scale.1;
    let ghost numi = num as int;
    let ghost deni = den as int;
    proof {
        assert(numi == scale_num(cwi, chi, wl as int, hl as int));
        assert(deni == scale_den(cwi, chi, wl as int, hl as int));
        assert(numi <= 0xFFFF_FFFF);
        lemma_scale_bounds(cwi, chi, wl as int, hl as int);
        vstd::arithmetic::mul::lemma_mul_upper_bound(
            cw as int,
            0xFFFF_FFFFint * 0xFFFF_FFFF_FFFF_FFFFint,
            num as int,
            0xFFFF_FFFF,
        );
        vstd::arithmetic::mul::lemma_mul_upper_bound(
            ch as int,
            0xFFFF_FFFFint * 0xFFFF_FFFF_FFFF_FFFFint,
            num as int,
            0xFFFF_FFFF,
        );
    }
    let csw = (cw * num) / den;
    let csh = (ch * num) / den;
    proof {
        assert(csw as int == scaled(cwi, numi, deni));
        assert(csh as int == scaled(chi, numi, deni));
    }
    let width: u32 = if csw < 1 {
        1u32
    } else {
        csw as u32
    };
    let height: u32 = if csh < 1 {
        1u32
    } else {
        csh as u32
    };
    proof {
        assert(width as int == maxi(1, scaled(cwi, numi, deni)));
        assert(height as int == maxi(1, scaled(chi, numi, deni)));
        assert(width <= wl && height <= hl);
        vstd::arithmetic::mul::lemma_mul_upper_bound(
            width as int,
            0xFFFF_FFFF,
            height as int,
            0xFFFF_FFFF,
        );
    }
    let area = (width as u128) * (height as u128);
    if area * 4 > (usize::MAX as u128) {
        return Err(StitchError::LayoutInfeasible);
    }
    // Place one cell per image, row-major, at cumulative offsets.
    let mut cells: Vec<Rect> = Vec::new();
    let mut y: u128 = 0;
    let ghost mut done_h: int = 0;
    let mut start: usize = 0;
    proof {
        vstd::arithmetic::div_mod::lemma_div_of0(deni);
    }
    while start < n
        invariant
            gsizes == sizes@,
            n == gsizes.len(),
            1 <= n,
            1 <= gcols,
            cols as int == gcols,
            0 <= start <= n,
            forall|i: int|
                0 <= i < gsizes.len() ==> 1 <= (#[trigger] gsizes[i]).w && 1 <= gsizes[i].h,
            cwi == cand_w_from(gsizes, gcols, 0),
            chi == cand_h_from(gsizes, gcols, 0),
            1 <= cwi,
            1 <= chi,
            num as int == numi,
            den as int == deni,
            1 <= numi <= deni,
            numi <= 0xFFFF_FFFF,
            numi == scale_num(cwi, chi, wl as int, hl as int),
            deni == scale_den(cwi, chi, wl as int, hl as int),
            width as int == maxi(1, scaled(cwi, numi, deni)),
            height as int == maxi(1, scaled(chi, numi, deni)),
            chi == done_h + cand_h_from(gsizes, gcols, start as int),
            done_h >= 0,
            cand_w_from(gsizes, gcols, start as int) <= cwi,
            y as int <= scaled(done_h, numi, deni),
            y <= 0xFFFF_FFFF,
            cells@.len() == start,
            forall|i: int|
                0 <= i < start ==> (#[trigger] cells@[i]).w == scaled(
                    gsizes[i].w as int,
                    numi,
                    deni,
                ) && cells@[i].h == scaled(gsizes[i].h as int, numi, deni),
            forall|i: int|
                0 <= i < start ==> (#[trigger] cells@[i]).x + cells@[i].w <= width && cells@[i].y
                    + cells@[i].h <= height,
            forall|i: int| 0 <= i < start ==> (#[trigger] cells@[i]).y + cells@[i].h <= y as int,
            forall|i: int, k: int|
                0 <= i < start && 0 <= k < start && i != k ==> rects_disjoint(
                    #[trigger] cells@[i],
                    #[trigger] cells@[k],
                ),
            start < n ==> start as int % gcols == 0,
            start == 0 ==> y == 0,
            1 <= start ==> (cells@[0]).x == 0 && (cells@[0]).y == 0,
            forall|i: int|
                1 <= i < start && i % gcols != 0 ==> (#[trigger] cells@[i]).x == cells@[i - 1].x
                    + cells@[i - 1].w && cells@[i].y == cells@[i - 1].y,
            forall|i: int|
                1 <= i < start && i % gcols == 0 ==> (#[trigger] cells@[i]).x == 0 && cells@[i].y
                    == cells@[i - 1].y + scaled(max_h(gsizes, i - gcols, i), numi, deni),
            1 <= start < n ==> (cells@[start - 1]).y + scaled(
                max_h(gsizes, start as int - gcols, start as int),
                numi,
                deni,
            ) == y as int,
        decreases n - start,
    {
        let ghost starti = start as int;
        let e = if n - start > cols {
            start + cols
        } else {
            n
        };
        proof {
            assert(e as int == row_end(n as int, starti, gcols));
        }
        // The row's tallest image fixes the band this row occupies.
        let mut m: u128 = 0;
        let mut j = start;
        while j < e
            invariant
                gsizes == sizes@,
                n == gsizes.len(),
                start <= j <= e <= n,
                forall|i: int|
                    0 <= i < gsizes.len() ==> 1 <= (#[trigger] gsizes[i]).w && 1 <= gsizes[i].h,
                m as int == max_h(gsizes, start as int, j as int),
                m <= 0xFFFF_FFFF,
            decreases e - j,
        {
            let ghost ji = j as int;
            let d = sizes[j];
            m = if (d.h as u128) > m {
                d.h as u128
            } else {
                m
            };
            j = j + 1;
            proof {
                assert(max_h(gsizes, start as int, ji + 1) == maxi(
                    max_h(gsizes, start as int, ji),
                    gsizes[ji].h as int,
                ));
            }
        }
        let ghost mh = max_h(gsizes, starti, e as int);
        proof {
            vstd::arithmetic::mul::lemma_mul_upper_bound(
                m as int,
                0xFFFF_FFFF,
                num as int,
                0xFFFF_FFFF,
            );
        }
        let rh = (m * num) / den;
        proof {
            assert(rh as int == scaled(mh, numi, deni));
            // This row's band ends within the canvas.
            assert(cand_h_from(gsizes, gcols, starti) == mh + cand_h_from(gsizes, gcols, e as int));
            lemma_cand_h_nonneg(gsizes, gcols, e as int);
            assert(done_h + mh <= chi);
            lemma_max_h_nonneg(gsizes, starti, e as int);
            lemma_scaled_superadd(done_h, mh, numi, deni);
            lemma_scaled_monotone(done_h + mh, chi, numi, deni);
            assert(y as int + rh as int <= scaled(chi, numi, deni));
            assert(y as int + rh as int <= height as int);
        }
        let mut x: u128 = 0;
        let ghost mut rw: int = 0;
        let mut j = start;
        while j < e
            invariant
                gsizes == sizes@,
                n == gsizes.len(),
                start <= j <= e <= n,
                e as int == row_end(n as int, start as int, gcols),
                1 <= gcols,
                forall|i: int|
                    0 <= i < gsizes.len() ==> 1 <= (#[trigger] gsizes[i]).w && 1 <= gsizes[i].h,
                cwi == cand_w_from(gsizes, gcols, 0),
                chi == cand_h_from(gsizes, gcols, 0),
                num as int == numi,
                den as int == deni,
                1 <= numi <= deni,
                numi <= 0xFFFF_FFFF,
                width as int == maxi(1, scaled(cwi, numi, deni)),
                height as int == maxi(1, scaled(chi, numi, deni)),
                cand_w_from(gsizes, gcols, start as int) <= cwi,
                rw == sum_w(gsizes, start as int, j as int),
                rw >= 0,
                x as int <= scaled(rw, numi, deni),
                x <= 0xFFFF_FFFF,
                y <= 0xFFFF_FFFF,
                rh as int == scaled(max_h(gsizes, start as int, e as int), numi, deni),
                0 <= rh,
                y as int + rh as int <= height as int,
                cells@.len() == j,
                forall|i: int|
                    0 <= i < j ==> (#[trigger] cells@[i]).w == scaled(gsizes[i].w as int, numi, deni)
                        && cells@[i].h == scaled(gsizes[i].h as int, numi, deni),
                forall|i: int|
                    0 <= i < j ==> (#[trigger] cells@[i]).x + cells@[i].w <= width && cells@[i].y
                        + cells@[i].h <= height,
                forall|i: int| 0 <= i < start ==> (#[trigger] cells@[i]).y + cells@[i].h <= y as int,
                forall|i: int|
                    start <= i < j ==> (#[trigger] cells@[i]).y == y as int && cells@[i].h as int
                        <= rh as int && cells@[i].x + cells@[i].w <= x as int,
                forall|i: int, k: int|
                    0 <= i < j && 0 <= k < j && i != k ==> rects_disjoint(
                        #[trigger] cells@[i],
                        #[trigger] cells@[k],
                    ),
                start < n,
                start as int % gcols == 0,
                start == 0 ==> y == 0,
                1 <= start ==> (cells@[start - 1]).y + scaled(
                    max_h(gsizes, start as int - gcols, start as int),
                    numi,
                    deni,
                ) == y as int,
                j == start ==> x == 0,
                j > start ==> (cells@[j - 1]).x + cells@[j - 1].w == x as int,
                1 <= j ==> (cells@[0]).x == 0 && (cells@[0]).y == 0,
                forall|i: int|
                    1 <= i < j && i % gcols != 0 ==> (#[trigger] cells@[i]).x == cells@[i - 1].x
                        + cells@[i - 1].w && cells@[i].y == cells@[i - 1].y,
                forall|i: int|
                    1 <= i < j && i % gcols == 0 ==> (#[trigger] cells@[i]).x == 0 && cells@[i].y
                        == cells@[i - 1].y + scaled(max_h(gsizes, i - gcols, i), numi, deni),
            decreases e - j,
        {
            let ghost ji = j as int;
            let d = sizes[j];
            proof {
                vstd::arithmetic::mul::lemma_mul_upper_bound(
                    d.w as int,
                    0xFFFF_FFFF,
                    num as int,
                    0xFFFF_FFFF,
                );
                vstd::arithmetic::mul::lemma_mul_upper_bound(
                    d.h as int,
                    0xFFFF_FFFF,
                    num as int,
                    0xFFFF_FFFF,
                );
            }
            let cwj = ((d.w as u128) * num) / den;
            let chj = ((d.h as u128) * num) / den;
            proof {
                let si = start as int;
                assert(cwj as int == scaled(gsizes[ji].w as int, numi, deni));
                assert(chj as int == scaled(gsizes[ji].h as int, numi, deni));
                lemma_scaled_le_self(d.w as int, numi, deni);
                lemma_scaled_le_self(d.h as int, numi, deni);
                // The cell ends within the canvas width.
                assert(sum_w(gsizes, si, ji + 1) == sum_w(gsizes, si, ji) + gsizes[ji].w);
                lemma_scaled_superadd(rw, d.w as int, numi, deni);
                lemma_sum_w_monotone(gsizes, si, ji + 1, e as int);
                lemma_sum_w_nonneg(gsizes, si, ji + 1);
                lemma_cand_w_nonneg(gsizes, gcols, e as int);
                assert(cand_w_from(gsizes, gcols, si) == maxi(
                    sum_w(gsizes, si, e as int),
                    cand_w_from(gsizes, gcols, e as int),
                ));
                assert(sum_w(gsizes, si, e as int) <= cand_w_from(gsizes, gcols, si));
                lemma_scaled_monotone(sum_w(gsizes, si, ji + 1), cwi, numi, deni);
                assert(x as int + cwj as int <= width as int);
                // The cell ends within this row's band.
                lemma_max_h_upper(gsizes, si, e as int, ji);
                lemma_scaled_monotone(d.h as int, max_h(gsizes, si, e as int), numi, deni);
                assert(chj as int <= rh as int);
                // Row-major placement: a cell after the row's first is
                // off the column boundary.
                lemma_fundamental_div_mod(si, gcols);
                if j > start {
                    lemma_mod_multiples_vanish(si / gcols, ji - si, gcols);
                    lemma_small_mod((j - start) as nat, gcols as nat);
                    assert(ji % gcols == ji - si);
                    assert(ji % gcols != 0);
                }
            }
            cells.push(Rect { x: x as u32, y: y as u32, w: cwj as u32, h: chj as u32 });
            x = x + cwj;
            proof {
                rw = rw + d.w as int;
            }
            j = j + 1;
        }
        y = y + rh;
        proof {
            done_h = done_h + mh;
            lemma_scaled_superadd(done_h - mh, mh, numi, deni);
            // The next row starts on the column boundary, one band down.
            if e < n {
                assert(e as int == starti + gcols);
                lemma_fundamental_div_mod(starti, gcols);
                lemma_mul_is_distributive_add(gcols, starti / gcols, 1);
                lemma_mul_is_commutative(starti / gcols + 1, gcols);
                lemma_mod_multiples_basic(starti / gcols + 1, gcols);
                assert((starti + gcols) % gcols == 0);
            }
        }
        start = e;
    }
    proof {
        assert(cand_h_from(gsizes, gcols, n as int) == 0);
        if !needs_scale(cwi, chi, wl as int, hl as int) {
            assert(numi == 1 && deni == 1);
            assert forall|i: int| 0 <= i < n implies (#[trigger] cells@[i]).w == gsizes[i].w
                && cells@[i].h == gsizes[i].h by {
                lemma_div_multiples_vanish(gsizes[i].w as int, 1);
                lemma_div_multiples_vanish(gsizes[i].h as int, 1);
            }
            lemma_div_multiples_vanish(cwi, 1);
            lemma_div_multiples_vanish(chi, 1);
        }
    }
    Ok(Layout { cells, cols, width, height })
}

} // verus!
