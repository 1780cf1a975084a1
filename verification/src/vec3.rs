//! Fixed-point 3-component vectors.
//!
//! Components are fixed-point scalars (millionths, see [`crate::fixed`]).
//! A direction vector produced by [`Vec3::normalized`] has every component
//! bounded by `FX_ONE` in magnitude.

use vstd::prelude::*;
use crate::fixed::{FX_ONE, fmul, spec_fmul};

verus! {

/// Most vector operations admit components up to this magnitude; it is wide
/// enough for every vector the camera derives from unit bases.
pub const VEC_COMP_LIMIT: i64 = 3_000_000;

#[derive(Clone, Copy, Debug, PartialEq, Eq, Structural)]
pub struct Vec3 {
    pub x: i64,
    pub y: i64,
    pub z: i64,
}

pub open spec fn spec_norm2(v: Vec3) -> int {
    v.x * v.x + v.y * v.y + v.z * v.z
}

pub open spec fn spec_plus(a: Vec3, b: Vec3) -> Vec3 {
    Vec3 { x: (a.x + b.x) as i64, y: (a.y + b.y) as i64, z: (a.z + b.z) as i64 }
}

pub open spec fn spec_minus(a: Vec3, b: Vec3) -> Vec3 {
    Vec3 { x: (a.x - b.x) as i64, y: (a.y - b.y) as i64, z: (a.z - b.z) as i64 }
}

pub open spec fn spec_scale(v: Vec3, s: int) -> Vec3 {
    Vec3 {
        x: spec_fmul(v.x as int, s) as i64,
        y: spec_fmul(v.y as int, s) as i64,
        z: spec_fmul(v.z as int, s) as i64,
    }
}

pub open spec fn spec_dot(a: Vec3, b: Vec3) -> int {
    spec_fmul(a.x as int, b.x as int) + spec_fmul(a.y as int, b.y as int) + spec_fmul(
        a.z as int,
        b.z as int,
    )
}

pub open spec fn spec_cross(a: Vec3, b: Vec3) -> Vec3 {
    Vec3 {
        x: (spec_fmul(a.y as int, b.z as int) - spec_fmul(a.z as int, b.y as int)) as i64,
        y: (spec_fmul(a.z as int, b.x as int) - spec_fmul(a.x as int, b.z as int)) as i64,
        z: (spec_fmul(a.x as int, b.y as int) - spec_fmul(a.y as int, b.x as int)) as i64,
    }
}

impl Vec3 {
    pub fn new(x: i64, y: i64, z: i64) -> (r: Vec3)
        ensures
            r == (Vec3 { x, y, z }),
    {
        Vec3 { x, y, z }
    }

    pub fn zero() -> (r: Vec3)
        ensures
            r == (Vec3 { x: 0i64, y: 0i64, z: 0i64 }),
    {
        Vec3 { x: 0, y: 0, z: 0 }
    }

    /// Componentwise sum.
    pub fn plus(self, other: Vec3) -> (r: Vec3)
        requires
            i64::MIN <= self.x + other.x <= i64::MAX,
            i64::MIN <= self.y + other.y <= i64::MAX,
            i64::MIN <= self.z + other.z <= i64::MAX,
        ensures
            r == spec_plus(self, other),
    {
        Vec3 { x: self.x + other.x, y: self.y + other.y, z: self.z + other.z }
    }

    /// Componentwise difference.
    pub fn minus(self, other: Vec3) -> (r: Vec3)
        requires
            i64::MIN <= self.x - other.x <= i64::MAX,
            i64::MIN <= self.y - other.y <= i64::MAX,
            i64::MIN <= self.z - other.z <= i64::MAX,
        ensures
            r == spec_minus(self, other),
    {
        Vec3 { x: self.x - other.x, y: self.y - other.y, z: self.z - other.z }
    }

    /// Componentwise fixed-point scaling by `s`.
    pub fn scale(self, s: i64) -> (r: Vec3)
        requires
            -0x7fff_ffff_ffff_ffff <= self.x * s <= 0x7fff_ffff_ffff_ffff,
            -0x7fff_ffff_ffff_ffff <= self.y * s <= 0x7fff_ffff_ffff_ffff,
            -0x7fff_ffff_ffff_ffff <= self.z * s <= 0x7fff_ffff_ffff_ffff,
        ensures
            r == spec_scale(self, s as int),
    {
        proof {
            crate::fixed::lemma_fmul_product_bound(self.x as int, s as int, 0x7fff_ffff_ffff_ffff);
            crate::fixed::lemma_fmul_product_bound(self.y as int, s as int, 0x7fff_ffff_ffff_ffff);
            crate::fixed::lemma_fmul_product_bound(self.z as int, s as int, 0x7fff_ffff_ffff_ffff);
        }
        Vec3 { x: fmul(self.x, s), y: fmul(self.y, s), z: fmul(self.z, s) }
    }

    /// Fixed-point dot product.
    pub fn dot(self, other: Vec3) -> (r: i64)
        requires
            -0x7fff_ffff_ffff_ffff <= self.x * other.x <= 0x7fff_ffff_ffff_ffff,
            -0x7fff_ffff_ffff_ffff <= self.y * other.y <= 0x7fff_ffff_ffff_ffff,
            -0x7fff_ffff_ffff_ffff <= self.z * other.z <= 0x7fff_ffff_ffff_ffff,
        ensures
            r == spec_dot(self, other),
    {
        proof {
            crate::fixed::lemma_fmul_product_bound(
                self.x as int,
                other.x as int,
                0x7fff_ffff_ffff_ffff,
            );
            crate::fixed::lemma_fmul_product_bound(
                self.y as int,
                other.y as int,
                0x7fff_ffff_ffff_ffff,
            );
            crate::fixed::lemma_fmul_product_bound(
                self.z as int,
                other.z as int,
                0x7fff_ffff_ffff_ffff,
            );
        }
        fmul(self.x, other.x) + fmul(self.y, other.y) + fmul(self.z, other.z)
    }

    /// Fixed-point cross product.
    pub fn cross(self, other: Vec3) -> (r: Vec3)
        requires
            -VEC_COMP_LIMIT <= self.x <= VEC_COMP_LIMIT,
            -VEC_COMP_LIMIT <= self.y <= VEC_COMP_LIMIT,
            -VEC_COMP_LIMIT <= self.z <= VEC_COMP_LIMIT,
            -VEC_COMP_LIMIT <= other.x <= VEC_COMP_LIMIT,
            -VEC_COMP_LIMIT <= other.y <= VEC_COMP_LIMIT,
            -VEC_COMP_LIMIT <= other.z <= VEC_COMP_LIMIT,
        ensures
            r == spec_cross(self, other),
    {
        proof {
            lemma_cross_products_fit(self, other);
        }
        Vec3 {
            x: fmul(self.y, other.z) - fmul(self.z, other.y),
            y: fmul(self.z, other.x) - fmul(self.x, other.z),
            z: fmul(self.x, other.y) - fmul(self.y, other.x),
        }
    }
}

/// The integer square root: the greatest `r` with `r * r <= n`.
pub open spec fn spec_isqrt(n: int) -> int
    decreases n,
{
    if n <= 0 {
        0
    } else {
        let r = spec_isqrt(n - 1);
        if (r + 1) * (r + 1) <= n {
            r + 1
        } else {
            r
        }
    }
}

/// `spec_isqrt(n)` is the integer square root of `n`.
pub proof fn lemma_isqrt_bounds(n: int)
    requires
        0 <= n,
    ensures
        0 <= spec_isqrt(n),
        spec_isqrt(n) * spec_isqrt(n) <= n,
        n < (spec_isqrt(n) + 1) * (spec_isqrt(n) + 1),
    decreases n,
{
    if n == 0 {
    } else {
        lemma_isqrt_bounds(n - 1);
        let p = spec_isqrt(n - 1);
        if (p + 1) * (p + 1) <= n {
            assert((p + 2) * (p + 2) == (p + 1) * (p + 1) + 2 * p + 3) by (nonlinear_arith);
        }
    }
}

/// Any `a` sandwiched between consecutive squares around `n` is `spec_isqrt(n)`.
pub proof fn lemma_isqrt_unique(n: int, a: int)
    requires
        0 <= n,
        0 <= a,
        a * a <= n,
        n < (a + 1) * (a + 1),
    ensures
        a == spec_isqrt(n),
{
    lemma_isqrt_bounds(n);
    let r = spec_isqrt(n);
    assert(a == r) by (nonlinear_arith)
        requires
            0 <= a,
            0 <= r,
            a * a <= n,
            n < (a + 1) * (a + 1),
            r * r <= n,
            n < (r + 1) * (r + 1),
    ;
}

/// The integer square root, by binary search.
pub fn isqrt(n: u64) -> (r: u64)
    requires
        n < 0x400_0000_0000_0000,
    ensures
        r == spec_isqrt(n as int),
        r < 0x2000_0000,
        r * r <= n,
        n < (r + 1) * (r + 1),
{
    let mut lo: u64 = 0;
    let mut hi: u64 = 0x2000_0000;
    while lo + 1 < hi
        invariant
            lo < hi <= 0x2000_0000,
            lo * lo <= n,
            n < hi * hi,
        decreases hi - lo,
    {
        let mid: u64 = lo + (hi - lo) / 2;
        assert(lo < mid < hi);
        assert(mid * mid <= 0x400_0000_0000_0000) by (nonlinear_arith)
            requires
                0 <= mid <= 0x2000_0000,
        ;
        let sq: u64 = mid * mid;
        if sq <= n {
            lo = mid;
        } else {
            hi = mid;
        }
    }
    proof {
        lemma_isqrt_unique(n as int, lo as int);
    }
    lo
}

/// `a * FX_ONE / n`, truncated toward zero.
pub open spec fn spec_div_unit(a: int, n: int) -> int {
    if a >= 0 {
        a * (FX_ONE as int) / n
    } else {
        -((-a) * (FX_ONE as int) / n)
    }
}

/// `a * FX_ONE / n` for a component `a` no larger than the square root `n`;
/// the result is a fixed-point value in `[-FX_ONE, FX_ONE]`.
fn div_unit(a: i64, n: u64) -> (r: i64)
    requires
        1 <= n <= 0x2000_0000,
        -(n as int) <= a <= n as int,
    ensures
        r == spec_div_unit(a as int, n as int),
        -FX_ONE <= r <= FX_ONE,
{
    proof {
        vstd::arithmetic::div_mod::lemma_div_multiples_vanish(FX_ONE as int, n as int);
        if a >= 0 {
            assert(a * (FX_ONE as int) <= (n as int) * (FX_ONE as int)) by (nonlinear_arith)
                requires
                    a <= n as int,
                    0 <= FX_ONE as int,
            ;
            vstd::arithmetic::div_mod::lemma_div_is_ordered(
                a as int * (FX_ONE as int),
                n as int * (FX_ONE as int),
                n as int,
            );
            vstd::arithmetic::div_mod::lemma_div_pos_is_pos(a as int * (FX_ONE as int), n as int);
            assert(0 <= a * (FX_ONE as int)) by (nonlinear_arith)
                requires
                    0 <= a,
            ;
        } else {
            assert((-a) * (FX_ONE as int) <= (n as int) * (FX_ONE as int)) by (nonlinear_arith)
                requires
                    -a <= n as int,
                    0 <= FX_ONE as int,
            ;
            vstd::arithmetic::div_mod::lemma_div_is_ordered(
                (-a) as int * (FX_ONE as int),
                n as int * (FX_ONE as int),
                n as int,
            );
            vstd::arithmetic::div_mod::lemma_div_pos_is_pos((-a) as int * (FX_ONE as int), n as int);
            assert(0 <= (-a) * (FX_ONE as int)) by (nonlinear_arith)
                requires
                    0 <= -a,
            ;
        }
    }
    if a >= 0 {
        (((a as u64) * 1_000_000u64) / n) as i64
    } else {
        -((((-a) as u64) * 1_000_000u64 / n) as i64)
    }
}

/// The normalization of `v`: each component becomes
/// `component * FX_ONE / sqrt(|v|^2)` — computed on the vector scaled up
/// a hundredfold for finer rounding, which leaves the exact value
/// unchanged — truncated toward zero.  The zero vector is left unchanged.
pub open spec fn spec_normalized(v: Vec3) -> Vec3 {
    let n2 = spec_norm2(v);
    if n2 == 0 {
        v
    } else {
        let n = spec_isqrt(n2 * 10_000);
        Vec3 {
            x: spec_div_unit(v.x * 100, n) as i64,
            y: spec_div_unit(v.y * 100, n) as i64,
            z: spec_div_unit(v.z * 100, n) as i64,
        }
    }
}

impl Vec3 {
    /// The squared norm.
    pub fn norm2(self) -> (r: i64)
        requires
            -VEC_COMP_LIMIT <= self.x <= VEC_COMP_LIMIT,
            -VEC_COMP_LIMIT <= self.y <= VEC_COMP_LIMIT,
            -VEC_COMP_LIMIT <= self.z <= VEC_COMP_LIMIT,
        ensures
            r == spec_norm2(self),
            0 <= r <= 27_000_000_000_000,
    {
        proof {
            crate::fixed::lemma_mul_bound(
                self.x as int,
                self.x as int,
                VEC_COMP_LIMIT as int,
                VEC_COMP_LIMIT as int,
            );
            crate::fixed::lemma_mul_bound(
                self.y as int,
                self.y as int,
                VEC_COMP_LIMIT as int,
                VEC_COMP_LIMIT as int,
            );
            crate::fixed::lemma_mul_bound(
                self.z as int,
                self.z as int,
                VEC_COMP_LIMIT as int,
                VEC_COMP_LIMIT as int,
            );
            lemma_squares_nonneg(self.x as int, self.y as int, self.z as int);
        }
        self.x * self.x + self.y * self.y + self.z * self.z
    }

    /// Normalize `v` to (approximately) unit length; the zero vector stays
    /// zero.  Every component of the result is in `[-FX_ONE, FX_ONE]`.
    pub fn normalized(self) -> (r: Vec3)
        requires
            -VEC_COMP_LIMIT <= self.x <= VEC_COMP_LIMIT,
            -VEC_COMP_LIMIT <= self.y <= VEC_COMP_LIMIT,
            -VEC_COMP_LIMIT <= self.z <= VEC_COMP_LIMIT,
        ensures
            r == spec_normalized(self),
            -FX_ONE <= r.x <= FX_ONE,
            -FX_ONE <= r.y <= FX_ONE,
            -FX_ONE <= r.z <= FX_ONE,
    {
        let n2: i64 = self.norm2();
        if n2 == 0 {
            proof {
                lemma_zero_norm_zero_vector(self);
            }
            self
        } else {
            let nn2: u64 = (n2 as u64) * 10_000;
            let n: u64 = isqrt(nn2);
            proof {
                assert(nn2 as int == spec_norm2(self) * 10_000);
                lemma_scaled_components_le_isqrt(self, nn2 as int, n as int);
                if n == 0 {
                    assert((nn2 as int) < (n as int + 1) * (n as int + 1));
                    assert(nn2 < 1) by (nonlinear_arith)
                        requires
                            n as int == 0,
                            (nn2 as int) < (n as int + 1) * (n as int + 1),
                    ;
                    assert(false);
                }
            }
            Vec3 {
                x: div_unit(self.x * 100, n),
                y: div_unit(self.y * 100, n),
                z: div_unit(self.z * 100, n),
            }
        }
    }
}

/// No scaled component magnitude exceeds the integer square root of the
/// scaled squared norm.
proof fn lemma_scaled_components_le_isqrt(v: Vec3, m: int, n: int)
    by (nonlinear_arith)
    requires
        0 <= n,
        m == spec_norm2(v) * 10_000,
        m < (n + 1) * (n + 1),
    ensures
        -n <= v.x * 100 <= n,
        -n <= v.y * 100 <= n,
        -n <= v.z * 100 <= n,
{
}

/// Squares are non-negative.
pub proof fn lemma_squares_nonneg(x: int, y: int, z: int)
    by (nonlinear_arith)
    ensures
        0 <= x * x,
        0 <= y * y,
        0 <= z * z,
{
}

/// A vector of squared norm zero is the zero vector.
proof fn lemma_zero_norm_zero_vector(v: Vec3)
    by (nonlinear_arith)
    requires
        spec_norm2(v) == 0,
    ensures
        v.x == 0 && v.y == 0 && v.z == 0,
{
}

/// The scaled division is odd: truncation is toward zero, so negating the
/// dividend negates the result.
pub proof fn lemma_div_unit_neg(a: int, n: int)
    requires
        1 <= n,
    ensures
        spec_div_unit(-a, n) == -spec_div_unit(a, n),
{
    if a == 0 {
        vstd::arithmetic::div_mod::lemma_div_of0(n);
        assert(0 * (FX_ONE as int) == 0) by (nonlinear_arith);
    } else if a > 0 {
        assert(spec_div_unit(-a, n) == -((-(-a)) * (FX_ONE as int) / n));
        assert(-(-a) == a);
    } else {
        assert(-a >= 0);
        assert(spec_div_unit(-a, n) == (-a) * (FX_ONE as int) / n);
    }
}

/// The scaled division differs from the exact quotient by less than one
/// `n`-th, shaved toward zero: its product with `n` never overshoots
/// `a * FX_ONE` and falls short of it by less than `n`.
pub proof fn lemma_div_unit_rem(a: int, n: int)
    requires
        1 <= n,
    ensures
        -n < n * spec_div_unit(a, n) - a * (FX_ONE as int) < n,
        a >= 0 ==> n * spec_div_unit(a, n) <= a * (FX_ONE as int) && spec_div_unit(a, n) >= 0,
        a <= 0 ==> n * spec_div_unit(a, n) >= a * (FX_ONE as int) && spec_div_unit(a, n) <= 0,
        (n * spec_div_unit(a, n)) * (n * spec_div_unit(a, n)) <= (a * (FX_ONE as int)) * (a * (
        FX_ONE as int)),
{
    let s = FX_ONE as int;
    let d = spec_div_unit(a, n);
    if a >= 0 {
        let p = a * s;
        assert(p >= 0) by (nonlinear_arith)
            requires
                a >= 0,
                s > 0,
                p == a * s,
        ;
        vstd::arithmetic::div_mod::lemma_fundamental_div_mod(p, n);
        vstd::arithmetic::div_mod::lemma_mod_bound(p, n);
        vstd::arithmetic::div_mod::lemma_div_pos_is_pos(p, n);
    } else {
        let p = (-a) * s;
        assert(p >= 0 && p == -(a * s)) by (nonlinear_arith)
            requires
                a < 0,
                s > 0,
                p == (-a) * s,
        ;
        vstd::arithmetic::div_mod::lemma_fundamental_div_mod(p, n);
        vstd::arithmetic::div_mod::lemma_mod_bound(p, n);
        vstd::arithmetic::div_mod::lemma_div_pos_is_pos(p, n);
        let q = p / n;
        assert(n * (-q) == -(n * q)) by (nonlinear_arith);
    }
    assert((n * d) * (n * d) <= (a * s) * (a * s)) by (nonlinear_arith)
        requires
            a >= 0 ==> n * d <= a * s && d >= 0,
            a <= 0 ==> n * d >= a * s && d <= 0,
            n >= 1,
    ;
}

/// Normalizing a vector of norm at least `nmin >= 4000` (and of components
/// within the camera's working range) yields a vector of unit length up to
/// a few millionths: its fixed-point dot product with itself lies within
/// `[FX_ONE - 8, FX_ONE + 5]`.
pub proof fn lemma_normalized_dot_self(v: Vec3, nmin: int)
    requires
        -2_000_000 <= v.x <= 2_000_000,
        -2_000_000 <= v.y <= 2_000_000,
        -2_000_000 <= v.z <= 2_000_000,
        4_000 <= nmin,
        nmin * nmin <= spec_norm2(v),
    ensures
        FX_ONE - 8 <= spec_dot(spec_normalized(v), spec_normalized(v)) <= FX_ONE + 5,
{
    let s = FX_ONE as int;
    let nn = spec_norm2(v);
    lemma_squares_nonneg(v.x as int, v.y as int, v.z as int);
    assert(nn >= 16_000_000) by (nonlinear_arith)
        requires
            4_000 <= nmin,
            nmin * nmin <= nn,
    ;
    let m = nn * 10_000;
    lemma_isqrt_bounds(m);
    let n = spec_isqrt(m);
    lemma_scaled_components_le_isqrt(v, m, n);
    let ax = v.x * 100;
    let ay = v.y * 100;
    let az = v.z * 100;
    assert(n >= 400_000) by (nonlinear_arith)
        requires
            nn >= 16_000_000,
            m == nn * 10_000,
            m < (n + 1) * (n + 1),
            0 <= n,
    ;
    let w = spec_normalized(v);
    let dx = spec_div_unit(ax, n);
    let dy = spec_div_unit(ay, n);
    let dz = spec_div_unit(az, n);
    lemma_div_unit_bounds(ax, n);
    lemma_div_unit_bounds(ay, n);
    lemma_div_unit_bounds(az, n);
    lemma_div_unit_rem(ax, n);
    lemma_div_unit_rem(ay, n);
    lemma_div_unit_rem(az, n);
    let q = dx * dx + dy * dy + dz * dz;
    assert(ax * ax + ay * ay + az * az == m) by (nonlinear_arith)
        requires
            ax == v.x * 100,
            ay == v.y * 100,
            az == v.z * 100,
            m == (v.x * v.x + v.y * v.y + v.z * v.z) * 10_000,
    ;
    // Rewrite each squared product over `n * n` and `s * s`.
    let n2 = n * n;
    let s2 = s * s;
    assert((n * dx) * (n * dx) == n2 * (dx * dx) && (ax * s) * (ax * s) == s2 * (ax * ax))
        by (nonlinear_arith)
        requires
            n2 == n * n,
            s2 == s * s,
    ;
    assert((n * dy) * (n * dy) == n2 * (dy * dy) && (ay * s) * (ay * s) == s2 * (ay * ay))
        by (nonlinear_arith)
        requires
            n2 == n * n,
            s2 == s * s,
    ;
    assert((n * dz) * (n * dz) == n2 * (dz * dz) && (az * s) * (az * s) == s2 * (az * az))
        by (nonlinear_arith)
        requires
            n2 == n * n,
            s2 == s * s,
    ;
    assert(n2 * q == n2 * (dx * dx) + n2 * (dy * dy) + n2 * (dz * dz)) by (nonlinear_arith)
        requires
            q == dx * dx + dy * dy + dz * dz,
    ;
    assert(s2 * m == s2 * (ax * ax) + s2 * (ay * ay) + s2 * (az * az)) by (nonlinear_arith)
        requires
            m == ax * ax + ay * ay + az * az,
    ;
    // Upper bound: the scaled components never overshoot, so the squared
    // norm of the result is at most `s * s * m / (n * n)`.
    assert(n2 * q <= s2 * m);
    assert((n + 1) * (n + 1) == n * n + 2 * n + 1) by (nonlinear_arith);
    assert(s2 * m <= s2 * n2 + 2 * s2 * n) by (nonlinear_arith)
        requires
            m <= n2 + 2 * n,
            s2 == s * s,
            s == 1_000_000,
    ;
    assert(q <= s * s + 5_000_000) by (nonlinear_arith)
        requires
            n2 * q <= s2 * n2 + 2 * s2 * n,
            n2 == n * n,
            s2 == s * s,
            n >= 400_000,
            s == 1_000_000,
    ;
    // Lower bound: each scaled component falls short of the exact quotient
    // by less than `n`, so each square loses at most `2 * n * n * s`.
    assert((n * dx) * (n * dx) >= (ax * s) * (ax * s) - 2 * (n * n) * s) by (nonlinear_arith)
        requires
            -n < n * dx - ax * s < n,
            -n <= ax <= n,
            s == 1_000_000,
            n >= 1,
    ;
    assert((n * dy) * (n * dy) >= (ay * s) * (ay * s) - 2 * (n * n) * s) by (nonlinear_arith)
        requires
            -n < n * dy - ay * s < n,
            -n <= ay <= n,
            s == 1_000_000,
            n >= 1,
    ;
    assert((n * dz) * (n * dz) >= (az * s) * (az * s) - 2 * (n * n) * s) by (nonlinear_arith)
        requires
            -n < n * dz - az * s < n,
            -n <= az <= n,
            s == 1_000_000,
            n >= 1,
    ;
    assert(n2 * q >= s2 * m - 6 * n2 * s);
    assert(s2 * m >= s2 * n2) by (nonlinear_arith)
        requires
            m >= n2,
            s2 == s * s,
            s == 1_000_000,
    ;
    assert(q >= s * s - 6 * s) by (nonlinear_arith)
        requires
            n2 * q >= s2 * n2 - 6 * n2 * s,
            n2 == n * n,
            s2 == s * s,
            n >= 1,
            s == 1_000_000,
    ;
    // From the squared norm to the fixed-point dot product: each of the
    // three products is shaved by less than one unit.
    crate::fixed::lemma_fmul_rem(dx, dx);
    crate::fixed::lemma_fmul_rem(dy, dy);
    crate::fixed::lemma_fmul_rem(dz, dz);
    lemma_squares_nonneg(dx, dy, dz);
    let dot = spec_dot(w, w);
    assert(s * dot <= q && s * dot > q - 3 * s);
    assert(FX_ONE - 8 <= dot <= FX_ONE + 5);
}

/// Normalization bounds every component by `FX_ONE`, whatever the input.
pub proof fn lemma_normalized_bounds(v: Vec3)
    ensures
        -FX_ONE <= spec_normalized(v).x <= FX_ONE,
        -FX_ONE <= spec_normalized(v).y <= FX_ONE,
        -FX_ONE <= spec_normalized(v).z <= FX_ONE,
{
    lemma_squares_nonneg(v.x as int, v.y as int, v.z as int);
    let n2 = spec_norm2(v);
    if n2 == 0 {
        lemma_zero_norm_zero_vector(v);
    } else {
        let m = n2 * 10_000;
        assert(m >= 10_000);
        lemma_isqrt_bounds(m);
        let n = spec_isqrt(m);
        lemma_scaled_components_le_isqrt(v, m, n);
        assert(n >= 1);
        lemma_div_unit_bounds(v.x * 100, n);
        lemma_div_unit_bounds(v.y * 100, n);
        lemma_div_unit_bounds(v.z * 100, n);
    }
}

/// `spec_div_unit` of a component no larger than `n` stays within
/// `[-FX_ONE, FX_ONE]`.
proof fn lemma_div_unit_bounds(a: int, n: int)
    requires
        1 <= n,
        -n <= a <= n,
    ensures
        -FX_ONE <= spec_div_unit(a, n) <= FX_ONE as int,
{
    vstd::arithmetic::div_mod::lemma_div_multiples_vanish(FX_ONE as int, n);
    if a >= 0 {
        assert(a * (FX_ONE as int) <= n * (FX_ONE as int)) by (nonlinear_arith)
            requires
                a <= n,
        ;
        vstd::arithmetic::div_mod::lemma_div_is_ordered(a * (FX_ONE as int), n * (FX_ONE as int), n);
        assert(0 <= a * (FX_ONE as int)) by (nonlinear_arith)
            requires
                0 <= a,
        ;
        vstd::arithmetic::div_mod::lemma_div_pos_is_pos(a * (FX_ONE as int), n);
    } else {
        assert((-a) * (FX_ONE as int) <= n * (FX_ONE as int)) by (nonlinear_arith)
            requires
                -a <= n,
        ;
        vstd::arithmetic::div_mod::lemma_div_is_ordered(
            (-a) * (FX_ONE as int),
            n * (FX_ONE as int),
            n,
        );
        assert(0 <= (-a) * (FX_ONE as int)) by (nonlinear_arith)
            requires
                0 <= -a,
        ;
        vstd::arithmetic::div_mod::lemma_div_pos_is_pos((-a) * (FX_ONE as int), n);
    }
}

/// The cross product of two unit-bounded vectors has components within
/// `2 * FX_ONE`, and none of its component arithmetic leaves `i64`.
pub proof fn lemma_cross_comps_bounded(a: Vec3, b: Vec3)
    requires
        -FX_ONE <= a.x <= FX_ONE,
        -FX_ONE <= a.y <= FX_ONE,
        -FX_ONE <= a.z <= FX_ONE,
        -FX_ONE <= b.x <= FX_ONE,
        -FX_ONE <= b.y <= FX_ONE,
        -FX_ONE <= b.z <= FX_ONE,
    ensures
        -2_000_000 <= spec_cross(a, b).x <= 2_000_000,
        -2_000_000 <= spec_cross(a, b).y <= 2_000_000,
        -2_000_000 <= spec_cross(a, b).z <= 2_000_000,
        spec_cross(a, b).x == spec_fmul(a.y as int, b.z as int) - spec_fmul(a.z as int, b.y as int),
        spec_cross(a, b).y == spec_fmul(a.z as int, b.x as int) - spec_fmul(a.x as int, b.z as int),
        spec_cross(a, b).z == spec_fmul(a.x as int, b.y as int) - spec_fmul(a.y as int, b.x as int),
{
    assert forall|p: int, q: int|
        -FX_ONE <= p <= FX_ONE && -FX_ONE <= q <= FX_ONE implies -1_000_000
        <= #[trigger] spec_fmul(p, q) <= 1_000_000 by {
        crate::fixed::lemma_mul_bound(p, q, FX_ONE as int, FX_ONE as int);
        crate::fixed::lemma_fmul_product_bound(p, q, 1_000_000_000_000);
    }
}

/// Each pairwise component product of two bounded vectors fits an `i64`,
/// and its fixed-point product is small.
proof fn lemma_cross_products_fit(a: Vec3, b: Vec3)
    requires
        -VEC_COMP_LIMIT <= a.x <= VEC_COMP_LIMIT,
        -VEC_COMP_LIMIT <= a.y <= VEC_COMP_LIMIT,
        -VEC_COMP_LIMIT <= a.z <= VEC_COMP_LIMIT,
        -VEC_COMP_LIMIT <= b.x <= VEC_COMP_LIMIT,
        -VEC_COMP_LIMIT <= b.y <= VEC_COMP_LIMIT,
        -VEC_COMP_LIMIT <= b.z <= VEC_COMP_LIMIT,
    ensures
        forall|p: int, q: int|
            -VEC_COMP_LIMIT <= p <= VEC_COMP_LIMIT && -VEC_COMP_LIMIT <= q <= VEC_COMP_LIMIT
                ==> -9_000_000_000_000 <= #[trigger] (p * q) <= 9_000_000_000_000 && -9_000_000
                <= spec_fmul(p, q) <= 9_000_000,
{
    assert forall|p: int, q: int|
        -VEC_COMP_LIMIT <= p <= VEC_COMP_LIMIT && -VEC_COMP_LIMIT <= q
            <= VEC_COMP_LIMIT implies -9_000_000_000_000 <= #[trigger] (p * q)
        <= 9_000_000_000_000 && -9_000_000 <= spec_fmul(p, q) <= 9_000_000 by {
        crate::fixed::lemma_mul_bound(p, q, VEC_COMP_LIMIT as int, VEC_COMP_LIMIT as int);
        crate::fixed::lemma_fmul_product_bound(p, q, 9_000_000_000_000);
    }
}

} // verus!
