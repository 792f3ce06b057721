//! Thresholded region detection with centroid estimation.
//!
//! The detector scans every pixel of a frame once, classifies it against an
//! inclusive HSV window, and reports the integer-truncated mean coordinate
//! of the matching pixels — provided their count exceeds a minimum cluster
//! size; a count at or below the threshold, in particular zero, yields no
//! target.

use vstd::prelude::*;
use vstd::arithmetic::div_mod::lemma_fundamental_div_mod;
use vstd::arithmetic::div_mod::lemma_fundamental_div_mod_converse_div;
use vstd::arithmetic::div_mod::lemma_mod_division_less_than_divisor;
use vstd::arithmetic::div_mod::lemma_mod_multiples_basic;
use crate::color::Hsv;
use crate::color::spec_hue;
use crate::color::spec_sat;
use crate::color::spec_val;
use crate::frame::Frame;
use crate::frame::Rgb;

verus! {

/// Whether a pixel's HSV representation lies inside the inclusive window
/// `[lo, hi]`, componentwise.
pub open spec fn hsv_in_window(p: Rgb, lo: Hsv, hi: Hsv) -> bool {
    let h = spec_hue(p.r as int, p.g as int, p.b as int);
    let s = spec_sat(p.r as int, p.g as int, p.b as int);
    let v = spec_val(p.r as int, p.g as int, p.b as int);
    &&& lo.h <= h <= hi.h
    &&& lo.s <= s <= hi.s
    &&& lo.v <= v <= hi.v
}

/// How many of the first `x` pixels of row `y` match the window.
pub open spec fn row_count(f: Frame, lo: Hsv, hi: Hsv, y: int, x: int) -> int
    decreases x,
{
    if x <= 0 {
        0
    } else {
        row_count(f, lo, hi, y, x - 1) + if hsv_in_window(f.px(x - 1, y), lo, hi) {
            1int
        } else {
            0int
        }
    }
}

/// The sum of the column indices of the matching pixels among the first `x`
/// pixels of row `y`.
pub open spec fn row_sum_x(f: Frame, lo: Hsv, hi: Hsv, y: int, x: int) -> int
    decreases x,
{
    if x <= 0 {
        0
    } else {
        row_sum_x(f, lo, hi, y, x - 1) + if hsv_in_window(f.px(x - 1, y), lo, hi) {
            x - 1
        } else {
            0int
        }
    }
}

/// How many pixels of the first `y` full rows match the window.
pub open spec fn grid_count(f: Frame, lo: Hsv, hi: Hsv, y: int) -> int
    decreases y,
{
    if y <= 0 {
        0
    } else {
        grid_count(f, lo, hi, y - 1) + row_count(f, lo, hi, y - 1, f.width as int)
    }
}

/// The sum of the column indices of the matching pixels of the first `y`
/// full rows.
pub open spec fn grid_sum_x(f: Frame, lo: Hsv, hi: Hsv, y: int) -> int
    decreases y,
{
    if y <= 0 {
        0
    } else {
        grid_sum_x(f, lo, hi, y - 1) + row_sum_x(f, lo, hi, y - 1, f.width as int)
    }
}

/// The sum of the row indices of the matching pixels of the first `y` full
/// rows: each full row contributes its index once per matching pixel.
pub open spec fn grid_sum_y(f: Frame, lo: Hsv, hi: Hsv, y: int) -> int
    decreases y,
{
    if y <= 0 {
        0
    } else {
        grid_sum_y(f, lo, hi, y - 1) + (y - 1) * row_count(f, lo, hi, y - 1, f.width as int)
    }
}

/// What detection reports: the truncated mean coordinate of the matching
/// pixels when their count exceeds `min_cluster`, and no target otherwise.
pub open spec fn spec_detect(f: Frame, lo: Hsv, hi: Hsv, min_cluster: int) -> Option<(i32, i32)> {
    let c = grid_count(f, lo, hi, f.height as int);
    if c > min_cluster && c > 0 {
        Some(
            (
                ((grid_sum_x(f, lo, hi, f.height as int) / c) as i32),
                ((grid_sum_y(f, lo, hi, f.height as int) / c) as i32),
            ),
        )
    } else {
        None
    }
}

/// Scan the whole frame and return the centroid of the pixels whose HSV
/// representation lies in the inclusive window `[lower, upper]`, or `None`
/// when at most `min_cluster` pixels match. The count must strictly exceed
/// the threshold, so zero matching pixels — and a count exactly at the
/// threshold — never yield a target. The threshold must not be negative: a
/// negative one would demand a mean position of an empty set of pixels.
pub fn detect(frame: &Frame, lower: Hsv, upper: Hsv, min_cluster: i64) -> (r: Option<(i32, i32)>)
    requires
        frame.wf(),
        min_cluster >= 0,
    ensures
        r == spec_detect(*frame, lower, upper, min_cluster as int),
        match r {
            Some(t) => 0 <= t.0 < frame.width && 0 <= t.1 < frame.height,
            None => grid_count(*frame, lower, upper, frame.height as int) <= min_cluster,
        },
{
    let w: u32 = frame.width();
    let h: u32 = frame.height();
    let mut total_x: u64 = 0;
    let mut total_y: u64 = 0;
    let mut count: u64 = 0;

    let mut y: u32 = 0;
    while y < h
        invariant
            frame.wf(),
            w == frame.width,
            h == frame.height,
            y <= h,
            count == grid_count(*frame, lower, upper, y as int),
            total_x == grid_sum_x(*frame, lower, upper, y as int),
            total_y == grid_sum_y(*frame, lower, upper, y as int),
            count <= (y as int) * (w as int),
            total_x <= count * ((w as int) - 1),
            total_y <= count * ((h as int) - 1),
        decreases h - y,
    {
        let mut x: u32 = 0;
        while x < w
            invariant
                frame.wf(),
                w == frame.width,
                h == frame.height,
                y < h,
                x <= w,
                count == grid_count(*frame, lower, upper, y as int) + row_count(
                    *frame,
                    lower,
                    upper,
                    y as int,
                    x as int,
                ),
                total_x == grid_sum_x(*frame, lower, upper, y as int) + row_sum_x(
                    *frame,
                    lower,
                    upper,
                    y as int,
                    x as int,
                ),
                total_y == grid_sum_y(*frame, lower, upper, y as int) + (y as int) * row_count(
                    *frame,
                    lower,
                    upper,
                    y as int,
                    x as int,
                ),
                count <= (y as int) * (w as int) + (x as int),
                total_x <= count * ((w as int) - 1),
                total_y <= count * ((h as int) - 1),
            decreases w - x,
        {
            let p = frame.get_pixel(x, y);
            let (ph, ps, pv) = crate::color::rgb_to_hsv(p.r, p.g, p.b);
            if ph >= lower.h && ph <= upper.h && ps >= lower.s && ps <= upper.s && pv >= lower.v
                && pv <= upper.v {
                proof {
                    assert(hsv_in_window(frame.px(x as int, y as int), lower, upper));
                    assert((y as int) * (w as int) <= 65535 * 65535) by (nonlinear_arith)
                        requires
                            0 <= (y as int) <= 65535,
                            0 <= (w as int) <= 65535,
                    ;
                    assert((count as int) * ((w as int) - 1) <= 4295032770 * 65534)
                        by (nonlinear_arith)
                        requires
                            0 <= (count as int) <= 4295032770,
                            0 <= (w as int) - 1 <= 65534,
                    ;
                    assert((count as int) * ((h as int) - 1) <= 4295032770 * 65534)
                        by (nonlinear_arith)
                        requires
                            0 <= (count as int) <= 4295032770,
                            0 <= (h as int) - 1 <= 65534,
                    ;
                    assert((count + 1) * ((w as int) - 1) == count * ((w as int) - 1) + ((w
                        as int) - 1)) by (nonlinear_arith);
                    assert((count + 1) * ((h as int) - 1) == count * ((h as int) - 1) + ((h
                        as int) - 1)) by (nonlinear_arith);
                    assert((y as int) * (row_count(*frame, lower, upper, y as int, x as int) + 1)
                        == (y as int) * row_count(*frame, lower, upper, y as int, x as int) + (y
                        as int)) by (nonlinear_arith);
                }
                total_x = total_x + (x as u64);
                total_y = total_y + (y as u64);
                count = count + 1;
            } else {
                proof {
                    assert(!hsv_in_window(frame.px(x as int, y as int), lower, upper));
                }
            }
            x = x + 1;
        }
        proof {
            assert(((y as int) + 1) * (w as int) == (y as int) * (w as int) + (w as int))
                by (nonlinear_arith);
        }
        y = y + 1;
    }

    proof {
        assert(count <= (h as int) * (w as int));
    }

    if count > (min_cluster as u64) {
        proof {
            assert(count >= 1);
            assert(w >= 1 && h >= 1) by {
                if w == 0 || h == 0 {
                    assert((h as int) * (w as int) == 0) by (nonlinear_arith)
                        requires
                            (h as int) == 0 || (w as int) == 0,
                    ;
                }
            }
            crate::color::lemma_div_upper(total_x as int, count as int, (w as int) - 1);
            crate::color::lemma_div_upper(total_y as int, count as int, (h as int) - 1);
            crate::color::lemma_div_lower(total_x as int, count as int, 0);
            crate::color::lemma_div_lower(total_y as int, count as int, 0);
        }
        let cx: i32 = (total_x / count) as i32;
        let cy: i32 = (total_y / count) as i32;
        Some((cx, cy))
    } else {
        None
    }
}

/// Whether the matching pixels of `f` are exactly those of the inclusive
/// rectangle `[x0, x1] × [y0, y1]`.
pub open spec fn rect_only_matches(
    f: Frame,
    lo: Hsv,
    hi: Hsv,
    x0: int,
    x1: int,
    y0: int,
    y1: int,
) -> bool {
    forall|x: int, y: int|
        0 <= x < f.width && 0 <= y < f.height ==> (#[trigger] hsv_in_window(f.px(x, y), lo, hi)
            <==> (x0 <= x <= x1 && y0 <= y <= y1))
}

/// `v` clamped into `[lov, hiv]`.
pub open spec fn clampi(v: int, lov: int, hiv: int) -> int {
    if v <= lov {
        lov
    } else if v <= hiv {
        v
    } else {
        hiv
    }
}

/// Partial row sums over a rectangle: among the first `x` pixels of row
/// `y`, the matching ones are the columns of `[x0, min(x, x1 + 1) - 1]`
/// when the row crosses the band, so their count is `m - x0` and twice the
/// sum of their indices is `(m - x0) * (x0 + m - 1)`, for
/// `m = clampi(x, x0, x1 + 1)`.
proof fn lemma_row_rect(
    f: Frame,
    lo: Hsv,
    hi: Hsv,
    y: int,
    x: int,
    x0: int,
    x1: int,
    y0: int,
    y1: int,
)
    requires
        f.wf(),
        0 <= x0 <= x1 < f.width,
        rect_only_matches(f, lo, hi, x0, x1, y0, y1),
        0 <= y < f.height,
        0 <= x <= f.width,
    ensures
        row_count(f, lo, hi, y, x) == if y0 <= y <= y1 {
            clampi(x, x0, x1 + 1) - x0
        } else {
            0int
        },
        2 * row_sum_x(f, lo, hi, y, x) == if y0 <= y <= y1 {
            (clampi(x, x0, x1 + 1) - x0) * (x0 + clampi(x, x0, x1 + 1) - 1)
        } else {
            0int
        },
    decreases x,
{
    if x > 0 {
        lemma_row_rect(f, lo, hi, y, x - 1, x0, x1, y0, y1);
        assert(hsv_in_window(f.px(x - 1, y), lo, hi) <==> (x0 <= x - 1 <= x1 && y0 <= y <= y1));
        if y0 <= y <= y1 && x0 <= x - 1 <= x1 {
            let m = clampi(x, x0, x1 + 1);
            assert(m == x);
            assert((x - 1 - x0) * (x0 + x - 2) + 2 * (x - 1) == (x - x0) * (x0 + x - 1))
                by (nonlinear_arith);
        }
    }
}

/// Partial grid sums over a rectangle, row by row: with
/// `m = clampi(y, y0, y1 + 1)` and `nx = x1 - x0 + 1`, the first `y` full
/// rows hold `(m - y0) * nx` matching pixels, twice the sum of their column
/// indices is `(m - y0) * (nx * (x0 + x1))`, and twice the sum of their row
/// indices is `nx * ((m - y0) * (y0 + m - 1))`.
proof fn lemma_grid_rect(f: Frame, lo: Hsv, hi: Hsv, y: int, x0: int, x1: int, y0: int, y1: int)
    requires
        f.wf(),
        0 <= x0 <= x1 < f.width,
        0 <= y0 <= y1 < f.height,
        rect_only_matches(f, lo, hi, x0, x1, y0, y1),
        0 <= y <= f.height,
    ensures
        grid_count(f, lo, hi, y) == (clampi(y, y0, y1 + 1) - y0) * (x1 - x0 + 1),
        2 * grid_sum_x(f, lo, hi, y) == (clampi(y, y0, y1 + 1) - y0) * ((x1 - x0 + 1) * (x0 + x1)),
        2 * grid_sum_y(f, lo, hi, y) == (x1 - x0 + 1) * ((clampi(y, y0, y1 + 1) - y0) * (y0 + clampi(
            y,
            y0,
            y1 + 1,
        ) - 1)),
    decreases y,
{
    let nx = x1 - x0 + 1;
    if y <= 0 {
        assert((clampi(y, y0, y1 + 1) - y0) * nx == 0) by (nonlinear_arith)
            requires
                clampi(y, y0, y1 + 1) == y0,
        ;
        assert((clampi(y, y0, y1 + 1) - y0) * (nx * (x0 + x1)) == 0) by (nonlinear_arith)
            requires
                clampi(y, y0, y1 + 1) == y0,
        ;
        assert(nx * ((clampi(y, y0, y1 + 1) - y0) * (y0 + clampi(y, y0, y1 + 1) - 1)) == 0)
            by (nonlinear_arith)
            requires
                clampi(y, y0, y1 + 1) == y0,
        ;
    } else {
        lemma_grid_rect(f, lo, hi, y - 1, x0, x1, y0, y1);
        lemma_row_rect(f, lo, hi, y - 1, f.width as int, x0, x1, y0, y1);
        let mp = clampi(y - 1, y0, y1 + 1);
        let m = clampi(y, y0, y1 + 1);
        if y0 <= y - 1 <= y1 {
            // row y - 1 crosses the band: it adds nx pixels at row index y - 1
            assert(m == y && mp == y - 1);
            assert(clampi(f.width as int, x0, x1 + 1) == x1 + 1);
            assert(row_count(f, lo, hi, y - 1, f.width as int) == nx);
            assert(2 * row_sum_x(f, lo, hi, y - 1, f.width as int) == nx * (x0 + x1));
            assert((mp - y0) * nx + nx == (m - y0) * nx) by (nonlinear_arith)
                requires
                    m == mp + 1,
            ;
            assert((mp - y0) * (nx * (x0 + x1)) + nx * (x0 + x1) == (m - y0) * (nx * (x0 + x1)))
                by (nonlinear_arith)
                requires
                    m == mp + 1,
            ;
            assert(2 * ((y - 1) * row_count(f, lo, hi, y - 1, f.width as int)) == 2 * (y - 1) * nx)
                by (nonlinear_arith)
                requires
                    row_count(f, lo, hi, y - 1, f.width as int) == nx,
            ;
            assert(nx * ((mp - y0) * (y0 + mp - 1)) + 2 * (y - 1) * nx == nx * ((m - y0) * (y0 + m
                - 1))) by (nonlinear_arith)
                requires
                    m == mp + 1,
                    mp == y - 1,
                    y0 <= y - 1,
            ;
        } else {
            // row y - 1 lies outside the band and adds nothing
            assert(m == mp);
            assert(row_count(f, lo, hi, y - 1, f.width as int) == 0);
            assert(2 * row_sum_x(f, lo, hi, y - 1, f.width as int) == 0);
            assert((y - 1) * row_count(f, lo, hi, y - 1, f.width as int) == 0) by (nonlinear_arith)
                requires
                    row_count(f, lo, hi, y - 1, f.width as int) == 0,
            ;
        }
    }
}

/// If `2 * s == c * a` with `c >= 1`, `a >= 0`, and `c` even whenever `a`
/// is odd, then the truncated quotient `s / c` is exactly `a / 2`.
proof fn lemma_halved_product_div(c: int, a: int, s: int)
    requires
        c >= 1,
        a >= 0,
        2 * s == c * a,
        a % 2 == 1 ==> c % 2 == 0,
    ensures
        s / c == a / 2,
{
    lemma_fundamental_div_mod(a, 2);
    lemma_mod_division_less_than_divisor(a, 2);
    let q = a / 2;
    let r = a % 2;
    if r == 0 {
        assert(c * (2 * q) == 2 * (c * q)) by (nonlinear_arith);
        assert(s == c * q);
        assert(s == q * c + 0) by (nonlinear_arith)
            requires
                s == c * q,
        ;
        lemma_fundamental_div_mod_converse_div(s, c, q, 0);
    } else {
        lemma_fundamental_div_mod(c, 2);
        let u = c / 2;
        assert(c == 2 * u);
        assert(c * (2 * q + 1) == 2 * ((2 * u) * q + u)) by (nonlinear_arith)
            requires
                c == 2 * u,
        ;
        assert(s == (2 * u) * q + u);
        assert(1 <= u < c);
        assert(s == q * c + u) by (nonlinear_arith)
            requires
                s == (2 * u) * q + u,
                c == 2 * u,
        ;
        lemma_fundamental_div_mod_converse_div(s, c, q, u);
    }
}

/// The centroid of a uniform matching rectangle is the rectangle's
/// integer-truncated geometric center: when the matching pixels of a frame
/// are exactly the rectangle `[x0, x1] × [y0, y1]`, the matching count is
/// the rectangle's area and the truncated mean coordinates are
/// `((x0 + x1) / 2, (y0 + y1) / 2)`.
pub proof fn lemma_rect_centroid(f: Frame, lo: Hsv, hi: Hsv, x0: int, x1: int, y0: int, y1: int)
    requires
        f.wf(),
        0 <= x0 <= x1 < f.width,
        0 <= y0 <= y1 < f.height,
        rect_only_matches(f, lo, hi, x0, x1, y0, y1),
    ensures
        grid_count(f, lo, hi, f.height as int) == (x1 - x0 + 1) * (y1 - y0 + 1),
        grid_sum_x(f, lo, hi, f.height as int) / grid_count(f, lo, hi, f.height as int) == (x0 + x1)
            / 2,
        grid_sum_y(f, lo, hi, f.height as int) / grid_count(f, lo, hi, f.height as int) == (y0 + y1)
            / 2,
{
    let nx = x1 - x0 + 1;
    let ny = y1 - y0 + 1;
    lemma_grid_rect(f, lo, hi, f.height as int, x0, x1, y0, y1);
    assert(clampi(f.height as int, y0, y1 + 1) == y1 + 1);
    let c = grid_count(f, lo, hi, f.height as int);
    let sx = grid_sum_x(f, lo, hi, f.height as int);
    let sy = grid_sum_y(f, lo, hi, f.height as int);
    assert(c == ny * nx) by (nonlinear_arith)
        requires
            c == (y1 + 1 - y0) * nx,
            ny == y1 + 1 - y0,
    ;
    assert(c == nx * ny) by (nonlinear_arith)
        requires
            c == ny * nx,
    ;
    assert(c >= 1) by (nonlinear_arith)
        requires
            c == nx * ny,
            nx >= 1,
            ny >= 1,
    ;
    // the horizontal mean
    assert(2 * sx == c * (x0 + x1)) by (nonlinear_arith)
        requires
            2 * sx == ny * (nx * (x0 + x1)),
            c == ny * nx,
    ;
    lemma_parity_even_extent(x0, x1, ny, c);
    lemma_halved_product_div(c, x0 + x1, sx);
    // the vertical mean
    assert(2 * sy == nx * (ny * (y0 + y1))) by (nonlinear_arith)
        requires
            2 * sy == nx * ((y1 + 1 - y0) * (y0 + y1)),
            ny == y1 + 1 - y0,
    ;
    assert(2 * sy == c * (y0 + y1)) by (nonlinear_arith)
        requires
            2 * sy == nx * (ny * (y0 + y1)),
            c == nx * ny,
    ;
    lemma_parity_even_extent(y0, y1, nx, c);
    lemma_halved_product_div(c, y0 + y1, sy);
}

/// When `a0 + a1` is odd, the extent `a1 - a0 + 1` is even, and so is any
/// area `c` that is `other` times that extent.
proof fn lemma_parity_even_extent(a0: int, a1: int, other: int, c: int)
    requires
        0 <= a0 <= a1,
        c == (a1 - a0 + 1) * other || c == other * (a1 - a0 + 1),
    ensures
        (a0 + a1) % 2 == 1 ==> c % 2 == 0,
{
    let a = a0 + a1;
    let n = a1 - a0 + 1;
    if a % 2 == 1 {
        lemma_fundamental_div_mod(a, 2);
        let q = a / 2;
        // n == 2 * (a1 - q), so n is even, and so is c == n * other
        assert(n == 2 * (a1 - q));
        let half_c = (a1 - q) * other;
        assert(c == 2 * half_c) by (nonlinear_arith)
            requires
                n == 2 * (a1 - q),
                half_c == (a1 - q) * other,
                c == n * other || c == other * n,
        ;
        lemma_mod_multiples_basic(half_c, 2);
        assert(c == 2 * half_c == half_c * 2);
    }
}

} // verus!
