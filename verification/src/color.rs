//! RGB to HSV conversion on the half-range hue scale.
//!
//! Hue is reported in the 0-180 convention common in computer vision: the
//! hue angle in degrees is halved and truncated toward zero. The whole
//! conversion is carried out in exact integer arithmetic over the byte
//! channels; the usual normalization of each channel to `[0, 1]` only
//! rescales every intermediate quantity, so the truncated results are
//! identical.
//!
//! Two formulations of the hue wrap-around have been in circulation: one
//! reduces the pre-scale hue fraction modulo six, the other adds a full turn
//! after scaling whenever the angle comes out negative. `HueWrap` names both,
//! and `lemma_hue_wrap_agree` shows that over exact arithmetic they give the
//! same hue for every input, so the choice is observable only under inexact
//! (floating-point) evaluation.

use vstd::prelude::*;
use vstd::arithmetic::div_mod::lemma_basic_div;
use vstd::arithmetic::div_mod::lemma_fundamental_div_mod;
use vstd::arithmetic::div_mod::lemma_mod_division_less_than_divisor;
use vstd::arithmetic::div_mod::lemma_mod_add_multiples_vanish;
use vstd::arithmetic::div_mod::lemma_small_mod;

verus! {

/// The two observed policies for wrapping a negative hue angle.
#[derive(Clone, Copy, Debug, PartialEq, Eq, Structural)]
pub enum HueWrap {
    /// Add 360 degrees after scaling whenever the angle is negative.
    NegativeOffset,
    /// Reduce the pre-scale fraction `(g - b) / delta` modulo six.
    ModuloSix,
}

/// A point of the HSV space in the half-range hue convention: hue in
/// `[0, 180]`, saturation and value in `[0, 255]`. A pair of these bounds an
/// inclusive acceptance window.
#[derive(Clone, Copy, Debug, PartialEq, Eq, Structural)]
pub struct Hsv {
    pub h: u8,
    pub s: u8,
    pub v: u8,
}

pub open spec fn max3(a: int, b: int, c: int) -> int {
    if a >= b && a >= c {
        a
    } else if b >= c {
        b
    } else {
        c
    }
}

pub open spec fn min3(a: int, b: int, c: int) -> int {
    if a <= b && a <= c {
        a
    } else if b <= c {
        b
    } else {
        c
    }
}

/// The value channel: the largest of the three byte channels.
pub open spec fn spec_val(r: int, g: int, b: int) -> int {
    max3(r, g, b)
}

/// The saturation channel: `delta / max * 255`, rounded half up, and zero
/// for black.
pub open spec fn spec_sat(r: int, g: int, b: int) -> int {
    let mx = max3(r, g, b);
    let d = mx - min3(r, g, b);
    if mx == 0 {
        0
    } else {
        (2 * d * 255 + mx) / (2 * mx)
    }
}

/// The hue channel on the half-range scale, under the negative-offset wrap:
/// the hue angle in degrees (60 times the sector fraction, plus 360 when
/// negative), halved and truncated toward zero. Ties among channels resolve
/// to red first, then green, mirroring the sector tests in order.
pub open spec fn spec_hue(r: int, g: int, b: int) -> int {
    let mx = max3(r, g, b);
    let d = mx - min3(r, g, b);
    if d == 0 {
        0
    } else if r == mx {
        if g >= b {
            (30 * (g - b)) / d
        } else {
            (180 * d - 30 * (b - g)) / d
        }
    } else if g == mx {
        (30 * (b - r) + 60 * d) / d
    } else {
        (30 * (r - g) + 120 * d) / d
    }
}

/// The hue channel under the modulo-six wrap: the sector fraction for the
/// red sector is reduced modulo six before scaling; the other sectors never
/// leave `[0, 6)` and are unchanged.
pub open spec fn spec_hue_mod_six(r: int, g: int, b: int) -> int {
    let mx = max3(r, g, b);
    let d = mx - min3(r, g, b);
    if d == 0 {
        0
    } else if r == mx {
        (30 * ((g - b) % (6 * d))) / d
    } else if g == mx {
        (30 * (b - r) + 60 * d) / d
    } else {
        (30 * (r - g) + 120 * d) / d
    }
}

pub open spec fn spec_hue_with(wrap: HueWrap, r: int, g: int, b: int) -> int {
    match wrap {
        HueWrap::NegativeOffset => spec_hue(r, g, b),
        HueWrap::ModuloSix => spec_hue_mod_six(r, g, b),
    }
}

/// If `0 <= n <= k * d + (d - 1)` then `n / d <= k`.
pub(crate) proof fn lemma_div_upper(n: int, d: int, k: int)
    requires
        d >= 1,
        0 <= n,
        0 <= k,
        n <= k * d + (d - 1),
    ensures
        n / d <= k,
{
    lemma_fundamental_div_mod(n, d);
    lemma_mod_division_less_than_divisor(n, d);
    let q = n / d;
    if q > k {
        assert(d * q >= d * (k + 1)) by (nonlinear_arith)
            requires
                d >= 1,
                q >= k + 1,
        ;
        assert(d * (k + 1) == k * d + d) by (nonlinear_arith);
        assert(false);
    }
}

/// If `n >= k * d >= 0` then `n / d >= k`.
pub(crate) proof fn lemma_div_lower(n: int, d: int, k: int)
    requires
        d >= 1,
        0 <= k,
        k * d <= n,
    ensures
        n / d >= k,
{
    lemma_fundamental_div_mod(n, d);
    lemma_mod_division_less_than_divisor(n, d);
    let q = n / d;
    assert(k * d >= 0) by (nonlinear_arith)
        requires
            d >= 1,
            k >= 0,
    ;
    if q < k {
        assert(d * q <= d * (k - 1)) by (nonlinear_arith)
            requires
                d >= 1,
                q <= k - 1,
        ;
        assert(d * (k - 1) == k * d - d) by (nonlinear_arith);
        assert(false);
    }
}

/// Every hue, under either wrap policy, lies in `[0, 180]`; saturation and
/// value lie in `[0, 255]` whenever the channels are bytes.
pub proof fn lemma_hsv_ranges(r: int, g: int, b: int)
    requires
        0 <= r <= 255,
        0 <= g <= 255,
        0 <= b <= 255,
    ensures
        0 <= spec_hue(r, g, b) <= 180,
        0 <= spec_sat(r, g, b) <= 255,
        0 <= spec_val(r, g, b) <= 255,
{
    let mx = max3(r, g, b);
    let mn = min3(r, g, b);
    let d = mx - mn;
    if mx > 0 {
        let n = 2 * d * 255 + mx;
        assert(2 * d * 255 + mx <= 255 * (2 * mx) + (2 * mx - 1)) by (nonlinear_arith)
            requires
                0 <= d <= mx,
                mx >= 1,
        ;
        lemma_div_upper(n, 2 * mx, 255);
        lemma_div_lower(n, 2 * mx, 0);
    }
    if d > 0 {
        if r == mx {
            if g >= b {
                assert(30 * (g - b) <= 30 * d) by (nonlinear_arith)
                    requires
                        g - b <= d,
                ;
                lemma_div_upper(30 * (g - b), d, 30);
                lemma_div_lower(30 * (g - b), d, 0);
            } else {
                assert(30 * (b - g) <= 30 * d) by (nonlinear_arith)
                    requires
                        b - g <= d,
                ;
                assert(180 * d - 30 * (b - g) >= 150 * d);
                assert(150 * d >= 0 * d) by (nonlinear_arith)
                    requires
                        d >= 1,
                ;
                lemma_div_upper(180 * d - 30 * (b - g), d, 180);
                lemma_div_lower(180 * d - 30 * (b - g), d, 0);
            }
        } else if g == mx {
            assert(-30 * d <= 30 * (b - r) <= 30 * d) by (nonlinear_arith)
                requires
                    -d <= b - r <= d,
            ;
            lemma_div_upper(30 * (b - r) + 60 * d, d, 90);
            lemma_div_lower(30 * (b - r) + 60 * d, d, 0);
        } else {
            assert(-30 * d <= 30 * (r - g) <= 30 * d) by (nonlinear_arith)
                requires
                    -d <= r - g <= d,
            ;
            lemma_div_upper(30 * (r - g) + 120 * d, d, 150);
            lemma_div_lower(30 * (r - g) + 120 * d, d, 0);
        }
    }
}

/// Grayscale pixels have zero hue and zero saturation: whenever the three
/// channels are equal, `delta` is zero, so both derived channels vanish
/// while the value channel reports the common brightness.
pub proof fn lemma_grayscale(c: int)
    requires
        0 <= c <= 255,
    ensures
        spec_hue(c, c, c) == 0,
        spec_sat(c, c, c) == 0,
        spec_val(c, c, c) == c,
{
    if c > 0 {
        assert(2 * 0 * 255 + c == c);
        lemma_basic_div(c, 2 * c);
    }
}

/// The two hue wrap policies agree on every input: over exact arithmetic the
/// modulo-six reduction and the add-a-turn-when-negative correction produce
/// the same truncated half-range hue.
pub proof fn lemma_hue_wrap_agree(r: int, g: int, b: int)
    requires
        0 <= r <= 255,
        0 <= g <= 255,
        0 <= b <= 255,
    ensures
        spec_hue_mod_six(r, g, b) == spec_hue(r, g, b),
{
    let mx = max3(r, g, b);
    let mn = min3(r, g, b);
    let d = mx - mn;
    if d > 0 && r == mx {
        if g >= b {
            assert(g - b <= d);
            lemma_small_mod((g - b) as nat, (6 * d) as nat);
        } else {
            lemma_mod_add_multiples_vanish(g - b, 6 * d);
            assert(0 <= 6 * d + (g - b) < 6 * d) by (nonlinear_arith)
                requires
                    d >= 1,
                    -d <= g - b < 0,
            ;
            lemma_small_mod((6 * d + (g - b)) as nat, (6 * d) as nat);
            assert((g - b) % (6 * d) == 6 * d + (g - b));
            assert(30 * (6 * d + (g - b)) == 180 * d - 30 * (b - g)) by (nonlinear_arith);
        }
    }
}

/// Convert one RGB pixel to half-range HSV under the given hue wrap policy.
///
/// Returns `(h, s, v)` with `h` the truncated half-range hue, `s` the
/// rounded saturation and `v` the value channel, exactly as the three spec
/// functions describe them.
pub fn rgb_to_hsv_with(wrap: HueWrap, r: u8, g: u8, b: u8) -> (hsv: (u8, u8, u8))
    ensures
        hsv.0 as int == spec_hue_with(wrap, r as int, g as int, b as int),
        hsv.1 as int == spec_sat(r as int, g as int, b as int),
        hsv.2 as int == spec_val(r as int, g as int, b as int),
        hsv.0 <= 180,
{
    proof {
        lemma_hsv_ranges(r as int, g as int, b as int);
        lemma_hue_wrap_agree(r as int, g as int, b as int);
    }
    let ri: u32 = r as u32;
    let gi: u32 = g as u32;
    let bi: u32 = b as u32;
    let mx: u32 = if ri >= gi && ri >= bi {
        ri
    } else if gi >= bi {
        gi
    } else {
        bi
    };
    let mn: u32 = if ri <= gi && ri <= bi {
        ri
    } else if gi <= bi {
        gi
    } else {
        bi
    };
    let d: u32 = mx - mn;

    let v: u8 = mx as u8;

    let s: u8 = if mx == 0 {
        0
    } else {
        ((2 * d * 255 + mx) / (2 * mx)) as u8
    };

    let h: u8 = if d == 0 {
        0
    } else if ri == mx {
        if gi >= bi {
            ((30 * (gi - bi)) / d) as u8
        } else {
            ((180 * d - 30 * (bi - gi)) / d) as u8
        }
    } else if gi == mx {
        ((30 * (bi + 2 * d) - 30 * ri) / d) as u8
    } else {
        let num: u32 = 30 * (ri + 4 * d) - 30 * gi;
        proof {
            assert(30 * ((ri + 4 * d) as int) - 30 * (gi as int) == 30 * ((ri as int) - (gi
                as int)) + 120 * (d as int)) by (nonlinear_arith);
        }
        (num / d) as u8
    };
    proof {
        if d > 0 && ri < mx && gi == mx {
            assert(30 * ((bi + 2 * d) as int) - 30 * (ri as int) == 30 * ((bi as int) - (ri
                as int)) + 60 * (d as int)) by (nonlinear_arith);
        }
    }
    (h, s, v)
}

/// Convert one RGB pixel to half-range HSV under the default wrap policy,
/// `HueWrap::NegativeOffset`. The alternative is `HueWrap::ModuloSix`; by
/// `lemma_hue_wrap_agree` the two coincide over exact arithmetic.
pub fn rgb_to_hsv(r: u8, g: u8, b: u8) -> (hsv: (u8, u8, u8))
    ensures
        hsv.0 as int == spec_hue(r as int, g as int, b as int),
        hsv.1 as int == spec_sat(r as int, g as int, b as int),
        hsv.2 as int == spec_val(r as int, g as int, b as int),
        hsv.0 <= 180,
{
    rgb_to_hsv_with(HueWrap::NegativeOffset, r, g, b)
}

} // verus!
