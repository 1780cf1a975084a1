//! Fixed-point trigonometry on angles in micro-degrees.
//!
//! An angle is an `i64` in millionths of a degree.  Sine and cosine return
//! fixed-point scalars in `[-FX_ONE, FX_ONE]`; they are computed from a
//! rational approximation of sine on `[0, 180]` degrees (evaluated at
//! milli-degree resolution) that is exact at every multiple of 90 degrees
//! and odd-symmetric around zero.

use vstd::prelude::*;
use vstd::arithmetic::div_mod::{
    lemma_div_is_ordered,
    lemma_div_multiples_vanish,
    lemma_div_pos_is_pos,
    lemma_fundamental_div_mod,
    lemma_fundamental_div_mod_converse,
    lemma_mod_bound,
};
use crate::fixed::FX_ONE;

verus! {

/// A full turn, in micro-degrees.
pub const DEG_FULL: i64 = 360_000_000;

/// Half a turn, in micro-degrees.
pub const DEG_HALF: i64 = 180_000_000;

/// A quarter turn, in micro-degrees.
pub const DEG_QUARTER: i64 = 90_000_000;

/// The widest angle the executable trigonometry accepts; far beyond any
/// angle the camera can accumulate in one tick.
pub const ANGLE_ARG_LIMIT: i64 = 0x4000_0000_0000_0000;

/// `a` wrapped into the half-open range `(-DEG_HALF, DEG_HALF]`.
pub open spec fn spec_wrap_deg(a: int) -> int {
    let m = a % (DEG_FULL as int);
    if m > DEG_HALF as int {
        m - DEG_FULL as int
    } else {
        m
    }
}

/// The rational sine approximation on `[0, 180]` degrees; `x` is in
/// milli-degrees and the result is a fixed-point scalar.
pub open spec fn spec_sin_half_turn(x: int) -> int {
    let p = x * (180_000 - x);
    4 * p * 1_000_000 / (40_500_000_000 - p)
}

/// Fixed-point sine of an angle in micro-degrees.
pub open spec fn spec_sin_fx(a: int) -> int {
    let w = spec_wrap_deg(a);
    if w >= 0 {
        spec_sin_half_turn(w / 1000)
    } else {
        -spec_sin_half_turn((-w) / 1000)
    }
}

/// Fixed-point cosine of an angle in micro-degrees.
pub open spec fn spec_cos_fx(a: int) -> int {
    spec_sin_fx(spec_wrap_deg(a) + DEG_QUARTER as int)
}

/// The wrapped angle lies in `(-DEG_HALF, DEG_HALF]`.
pub proof fn lemma_wrap_deg_range(a: int)
    ensures
        -(DEG_HALF as int) < spec_wrap_deg(a) <= DEG_HALF as int,
{
    lemma_mod_bound(a, DEG_FULL as int);
}

/// `x * (180_000 - x)` lies in `[0, 8_100_000_000]` on the half turn.
proof fn lemma_parabola_bounds(x: int)
    by (nonlinear_arith)
    requires
        0 <= x <= 180_000,
    ensures
        0 <= x * (180_000 - x) <= 8_100_000_000,
{
    assert(0 <= (x - 90_000) * (x - 90_000));
}

/// The sine approximation stays within `[0, FX_ONE]` on the half turn.
pub proof fn lemma_sin_half_turn_bounds(x: int)
    requires
        0 <= x <= 180_000,
    ensures
        0 <= spec_sin_half_turn(x) <= FX_ONE as int,
{
    lemma_parabola_bounds(x);
    let p = x * (180_000 - x);
    let num = 4 * p * 1_000_000;
    let den = 40_500_000_000 - p;
    assert(num <= 1_000_000 * den) by (nonlinear_arith)
        requires
            0 <= p <= 8_100_000_000,
            num == 4 * p * 1_000_000,
            den == 40_500_000_000 - p,
    ;
    lemma_div_is_ordered(num, 1_000_000 * den, den);
    lemma_div_multiples_vanish(1_000_000, den);
    lemma_div_pos_is_pos(num, den);
}

/// Sine lies in `[-FX_ONE, FX_ONE]` everywhere.
pub proof fn lemma_sin_fx_bounds(a: int)
    ensures
        -(FX_ONE as int) <= spec_sin_fx(a) <= FX_ONE as int,
{
    lemma_wrap_deg_range(a);
    let w = spec_wrap_deg(a);
    if w >= 0 {
        lemma_div_is_ordered(w, DEG_HALF as int, 1000);
        lemma_div_pos_is_pos(w, 1000);
        lemma_sin_half_turn_bounds(w / 1000);
    } else {
        lemma_div_is_ordered(-w, DEG_HALF as int, 1000);
        lemma_div_pos_is_pos(-w, 1000);
        lemma_sin_half_turn_bounds((-w) / 1000);
    }
}

/// Wrapping an angle in `(DEG_HALF, DEG_FULL)` subtracts a full turn.
pub proof fn lemma_wrap_deg_minus_full(b: int)
    requires
        (DEG_HALF as int) < b < (DEG_FULL as int),
    ensures
        spec_wrap_deg(b) == b - DEG_FULL as int,
{
    lemma_fundamental_div_mod_converse(b, DEG_FULL as int, 0, b);
}

/// On the middle of the half turn the sine approximation is at least one
/// half.
proof fn lemma_sin_half_turn_ge_half(x: int)
    requires
        30_000 <= x <= 150_000,
    ensures
        spec_sin_half_turn(x) >= 500_000,
{
    let p = x * (180_000 - x);
    assert(p >= 4_500_000_000) by (nonlinear_arith)
        requires
            30_000 <= x <= 150_000,
            p == x * (180_000 - x),
        {
        assert(0 <= (x - 30_000) * (150_000 - x));
    }
    let num = 4 * p * 1_000_000;
    let den = 40_500_000_000 - p;
    lemma_parabola_bounds(x);
    assert(num >= 500_000 * den);
    lemma_div_is_ordered(500_000 * den, num, den);
    lemma_div_multiples_vanish(500_000, den);
}

/// Away from the ends of the half turn by at least one degree, the sine
/// approximation stays above `0.0177`.
proof fn lemma_sin_half_turn_ge_degree(x: int)
    requires
        1_000 <= x <= 179_000,
    ensures
        spec_sin_half_turn(x) >= 17_700,
{
    let p = x * (180_000 - x);
    assert(p >= 179_000_000) by (nonlinear_arith)
        requires
            1_000 <= x <= 179_000,
            p == x * (180_000 - x),
        {
        assert(0 <= (x - 1_000) * (179_000 - x));
    }
    let num = 4 * p * 1_000_000;
    let den = 40_500_000_000 - p;
    lemma_parabola_bounds(x);
    assert(num >= 17_700 * den);
    lemma_div_is_ordered(17_700 * den, num, den);
    lemma_div_multiples_vanish(17_700, den);
}

/// At every angle, the sine or the cosine has magnitude at least one half.
pub proof fn lemma_sin_or_cos_ge_half(a: int)
    ensures
        spec_sin_fx(a) >= 500_000 || spec_sin_fx(a) <= -500_000 || spec_cos_fx(a) >= 500_000
            || spec_cos_fx(a) <= -500_000,
{
    lemma_wrap_deg_range(a);
    let w = spec_wrap_deg(a);
    if 30_000_000 <= w <= 150_000_000 {
        lemma_div_is_ordered(30_000_000, w, 1000);
        lemma_div_is_ordered(w, 150_000_000, 1000);
        lemma_sin_half_turn_ge_half(w / 1000);
    } else if -150_000_000 <= w <= -30_000_000 {
        lemma_div_is_ordered(30_000_000, -w, 1000);
        lemma_div_is_ordered(-w, 150_000_000, 1000);
        lemma_sin_half_turn_ge_half((-w) / 1000);
    } else {
        let b = w + DEG_QUARTER as int;
        if -30_000_000 < w < 30_000_000 {
            lemma_wrap_deg_small(b);
            lemma_div_is_ordered(60_000_000, b, 1000);
            lemma_div_is_ordered(b, 120_000_000, 1000);
            lemma_sin_half_turn_ge_half(spec_wrap_deg(b) / 1000);
        } else if w > 150_000_000 {
            lemma_wrap_deg_minus_full(b);
            let c = b - DEG_FULL as int;
            lemma_div_is_ordered(90_000_000, -c, 1000);
            lemma_div_is_ordered(-c, 120_000_000, 1000);
            lemma_sin_half_turn_ge_half((-c) / 1000);
        } else {
            lemma_wrap_deg_small(b);
            lemma_div_is_ordered(60_000_000, -b, 1000);
            lemma_div_is_ordered(-b, 90_000_000, 1000);
            lemma_sin_half_turn_ge_half((-spec_wrap_deg(b)) / 1000);
        }
    }
}

/// While the pitch stays within 89 degrees of level, its cosine is at
/// least `0.0177`.
pub proof fn lemma_cos_fx_lower_small_pitch(p: int)
    requires
        -89_000_000 <= p <= 89_000_000,
    ensures
        spec_cos_fx(p) >= 17_700,
{
    lemma_wrap_deg_small(p);
    let b = p + DEG_QUARTER as int;
    lemma_wrap_deg_small(b);
    lemma_div_is_ordered(1_000_000, b, 1000);
    lemma_div_is_ordered(b, 179_000_000, 1000);
    lemma_sin_half_turn_ge_degree(spec_wrap_deg(b) / 1000);
}

/// Cosine lies in `[-FX_ONE, FX_ONE]` everywhere.
pub proof fn lemma_cos_fx_bounds(a: int)
    ensures
        -(FX_ONE as int) <= spec_cos_fx(a) <= FX_ONE as int,
{
    lemma_wrap_deg_range(a);
    lemma_sin_fx_bounds(spec_wrap_deg(a) + DEG_QUARTER as int);
}

/// Wrapping leaves an angle already in `(-DEG_HALF, DEG_HALF]` unchanged.
pub proof fn lemma_wrap_deg_small(a: int)
    requires
        -(DEG_HALF as int) < a <= DEG_HALF as int,
    ensures
        spec_wrap_deg(a) == a,
{
    if a >= 0 {
        lemma_fundamental_div_mod_converse(a, DEG_FULL as int, 0, a);
    } else {
        lemma_fundamental_div_mod_converse(a, DEG_FULL as int, -1, a + DEG_FULL as int);
    }
}

/// Sine is exact at every multiple of a quarter turn.
pub proof fn lemma_sin_key_values()
    ensures
        spec_sin_fx(0) == 0,
        spec_sin_fx(DEG_QUARTER as int) == FX_ONE as int,
        spec_sin_fx(-(DEG_QUARTER as int)) == -(FX_ONE as int),
        spec_sin_fx(DEG_HALF as int) == 0,
{
    lemma_wrap_deg_small(0);
    lemma_wrap_deg_small(DEG_QUARTER as int);
    lemma_wrap_deg_small(-(DEG_QUARTER as int));
    lemma_wrap_deg_small(DEG_HALF as int);
    lemma_fundamental_div_mod_converse(DEG_QUARTER as int, 1000, 90_000, 0);
    lemma_fundamental_div_mod_converse(DEG_HALF as int, 1000, 180_000, 0);
    assert(spec_sin_half_turn(0) == 0) by {
        assert(0 * (180_000 - 0) == 0) by (nonlinear_arith);
        lemma_div_pos_is_pos(0, 40_500_000_000);
        lemma_div_is_ordered(0, 0, 40_500_000_000);
    }
    assert(spec_sin_half_turn(90_000) == FX_ONE as int) by {
        assert(90_000 * (180_000 - 90_000) == 8_100_000_000) by (nonlinear_arith);
        lemma_fundamental_div_mod_converse(
            4 * 8_100_000_000int * 1_000_000,
            40_500_000_000int - 8_100_000_000,
            1_000_000int,
            0int,
        );
    }
    assert(spec_sin_half_turn(180_000) == 0) by {
        assert(180_000 * (180_000 - 180_000) == 0) by (nonlinear_arith);
        lemma_div_pos_is_pos(0, 40_500_000_000);
        lemma_div_is_ordered(0, 0, 40_500_000_000);
    }
}

/// Cosine is exact at every multiple of a quarter turn.
pub proof fn lemma_cos_key_values()
    ensures
        spec_cos_fx(0) == FX_ONE as int,
        spec_cos_fx(DEG_QUARTER as int) == 0,
        spec_cos_fx(-(DEG_QUARTER as int)) == 0,
        spec_cos_fx(DEG_HALF as int) == -(FX_ONE as int),
{
    lemma_sin_key_values();
    lemma_wrap_deg_small(0);
    lemma_wrap_deg_small(DEG_QUARTER as int);
    lemma_wrap_deg_small(-(DEG_QUARTER as int));
    lemma_wrap_deg_small(DEG_HALF as int);
    assert(spec_sin_fx(DEG_HALF as int + DEG_QUARTER as int) == -(FX_ONE as int)) by {
        assert(spec_wrap_deg(270_000_000) == -(DEG_QUARTER as int)) by {
            lemma_fundamental_div_mod_converse(270_000_000, DEG_FULL as int, 0, 270_000_000);
        }
        lemma_fundamental_div_mod_converse(DEG_QUARTER as int, 1000, 90_000, 0);
    }
}

/// Wraps an angle in micro-degrees into `(-DEG_HALF, DEG_HALF]`.
pub fn wrap_deg(a: i64) -> (r: i64)
    requires
        -ANGLE_ARG_LIMIT <= a <= ANGLE_ARG_LIMIT,
    ensures
        r == spec_wrap_deg(a as int),
        -DEG_HALF < r <= DEG_HALF,
{
    proof {
        lemma_mod_bound(a as int, DEG_FULL as int);
    }
    let m: i64;
    if a >= 0 {
        m = ((a as u64) % 360_000_000u64) as i64;
    } else {
        let neg: i64 = -a;
        let mneg: i64 = ((neg as u64) % 360_000_000u64) as i64;
        proof {
            lemma_fundamental_div_mod(neg as int, DEG_FULL as int);
            let q = (neg as int) / (DEG_FULL as int);
            if mneg == 0 {
                lemma_fundamental_div_mod_converse(a as int, DEG_FULL as int, -q, 0);
            } else {
                lemma_fundamental_div_mod_converse(
                    a as int,
                    DEG_FULL as int,
                    -q - 1,
                    DEG_FULL as int - mneg as int,
                );
            }
        }
        if mneg == 0 {
            m = 0;
        } else {
            m = 360_000_000 - mneg;
        }
    }
    if m > 180_000_000 {
        m - 360_000_000
    } else {
        m
    }
}

/// The sine approximation on the half turn; `x` is in milli-degrees.
fn sin_half_turn(x: i64) -> (r: i64)
    requires
        0 <= x <= 180_000,
    ensures
        r == spec_sin_half_turn(x as int),
        0 <= r <= FX_ONE,
{
    proof {
        lemma_parabola_bounds(x as int);
        lemma_sin_half_turn_bounds(x as int);
    }
    let p: i64 = x * (180_000 - x);
    let num: u64 = 4 * (p as u64) * 1_000_000;
    let den: u64 = 40_500_000_000 - (p as u64);
    (num / den) as i64
}

/// Fixed-point sine of an angle in micro-degrees.
pub fn sin_fx(a: i64) -> (r: i64)
    requires
        -ANGLE_ARG_LIMIT <= a <= ANGLE_ARG_LIMIT,
    ensures
        r == spec_sin_fx(a as int),
        -FX_ONE <= r <= FX_ONE,
{
    let w = wrap_deg(a);
    if w >= 0 {
        proof {
            lemma_div_is_ordered(w as int, DEG_HALF as int, 1000);
            lemma_div_pos_is_pos(w as int, 1000);
        }
        let x = ((w as u64) / 1000) as i64;
        sin_half_turn(x)
    } else {
        proof {
            lemma_div_is_ordered(-(w as int), DEG_HALF as int, 1000);
            lemma_div_pos_is_pos(-(w as int), 1000);
        }
        let x = (((-w) as u64) / 1000) as i64;
        -sin_half_turn(x)
    }
}

/// Fixed-point cosine of an angle in micro-degrees.
pub fn cos_fx(a: i64) -> (r: i64)
    requires
        -ANGLE_ARG_LIMIT <= a <= ANGLE_ARG_LIMIT,
    ensures
        r == spec_cos_fx(a as int),
        -FX_ONE <= r <= FX_ONE,
{
    let w = wrap_deg(a);
    sin_fx(w + 90_000_000)
}

} // verus!
