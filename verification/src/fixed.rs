//! Fixed-point scalars.
//!
//! A scalar is an `i64` holding its value in millionths: `FX_ONE` stands for
//! `1.0`, `10_000` for `0.01`.  Multiplication of two scalars therefore
//! divides the wide product by `FX_ONE`, truncating toward zero.

use vstd::prelude::*;

verus! {

/// The fixed-point unit: the representation of `1.0`.
pub const FX_ONE: i64 = 1_000_000;

/// The fixed-point product of `a` and `b`: `a * b / FX_ONE`, truncated
/// toward zero (both operands of the division are made non-negative first,
/// so `/` here is plain Euclidean division).
pub open spec fn spec_fmul(a: int, b: int) -> int {
    if a * b >= 0 {
        (a * b) / (FX_ONE as int)
    } else {
        -((-(a * b)) / (FX_ONE as int))
    }
}

/// Bounds a product from the bounds of its factors.
pub proof fn lemma_mul_bound(a: int, b: int, bound_a: int, bound_b: int)
    by (nonlinear_arith)
    requires
        -bound_a <= a <= bound_a,
        -bound_b <= b <= bound_b,
        0 <= bound_a,
        0 <= bound_b,
    ensures
        -(bound_a * bound_b) <= a * b <= bound_a * bound_b,
{
}

/// The fixed-point product stays within the scaled bound of the wide
/// product.
pub proof fn lemma_fmul_product_bound(a: int, b: int, m: int)
    requires
        -m <= a * b <= m,
        0 <= m,
    ensures
        -(m / (FX_ONE as int)) <= spec_fmul(a, b) <= m / (FX_ONE as int),
{
    let p = a * b;
    let s = FX_ONE as int;
    vstd::arithmetic::div_mod::lemma_div_is_ordered(0, m, s);
    if p >= 0 {
        vstd::arithmetic::div_mod::lemma_div_is_ordered(p, m, s);
        vstd::arithmetic::div_mod::lemma_div_is_ordered(0, p, s);
    } else {
        vstd::arithmetic::div_mod::lemma_div_is_ordered(-p, m, s);
        vstd::arithmetic::div_mod::lemma_div_is_ordered(0, -p, s);
    }
}

/// Multiplying by zero gives zero.
pub proof fn lemma_fmul_zero(a: int)
    ensures
        spec_fmul(a, 0) == 0,
{
    assert(a * 0 == 0) by (nonlinear_arith);
    vstd::arithmetic::div_mod::lemma_div_of0(FX_ONE as int);
}

/// Multiplying by the fixed-point unit is the identity.
pub proof fn lemma_fmul_one(a: int)
    ensures
        spec_fmul(a, FX_ONE as int) == a,
{
    let s = FX_ONE as int;
    if a >= 0 {
        assert(a * s >= 0) by (nonlinear_arith)
            requires
                a >= 0,
                s > 0,
        ;
        vstd::arithmetic::div_mod::lemma_div_multiples_vanish(a, s);
        assert(a * s == s * a) by (nonlinear_arith);
    } else {
        assert(a * s < 0) by (nonlinear_arith)
            requires
                a < 0,
                s > 0,
        ;
        assert(-(a * s) == (-a) * s) by (nonlinear_arith);
        vstd::arithmetic::div_mod::lemma_div_multiples_vanish(-a, s);
        assert((-a) * s == s * (-a)) by (nonlinear_arith);
    }
}

/// The fixed-point product is commutative.
pub proof fn lemma_fmul_comm(a: int, b: int)
    ensures
        spec_fmul(a, b) == spec_fmul(b, a),
{
    assert(a * b == b * a) by (nonlinear_arith);
}

/// The fixed-point product is odd in each argument: truncation is toward
/// zero, so negating a factor negates the result.
pub proof fn lemma_fmul_neg(a: int, b: int)
    ensures
        spec_fmul(a, -b) == -spec_fmul(a, b),
        spec_fmul(-a, b) == -spec_fmul(a, b),
{
    assert(a * (-b) == -(a * b) && (-a) * b == -(a * b)) by (nonlinear_arith);
    let p = a * b;
    if p == 0 {
        vstd::arithmetic::div_mod::lemma_div_of0(FX_ONE as int);
    }
}

/// The fixed-point product differs from the exact quotient by less than
/// one unit, shaved toward zero.
pub proof fn lemma_fmul_rem(a: int, b: int)
    ensures
        -(FX_ONE as int) < (FX_ONE as int) * spec_fmul(a, b) - a * b < FX_ONE as int,
        a * b >= 0 ==> (FX_ONE as int) * spec_fmul(a, b) <= a * b && spec_fmul(a, b) >= 0,
        a * b <= 0 ==> (FX_ONE as int) * spec_fmul(a, b) >= a * b && spec_fmul(a, b) <= 0,
{
    let s = FX_ONE as int;
    let p = a * b;
    if p >= 0 {
        vstd::arithmetic::div_mod::lemma_fundamental_div_mod(p, s);
        vstd::arithmetic::div_mod::lemma_mod_bound(p, s);
        vstd::arithmetic::div_mod::lemma_div_pos_is_pos(p, s);
    } else {
        vstd::arithmetic::div_mod::lemma_fundamental_div_mod(-p, s);
        vstd::arithmetic::div_mod::lemma_mod_bound(-p, s);
        vstd::arithmetic::div_mod::lemma_div_pos_is_pos(-p, s);
    }
}

/// Fixed-point multiplication.
pub fn fmul(a: i64, b: i64) -> (r: i64)
    requires
        -0x7fff_ffff_ffff_ffff <= a * b <= 0x7fff_ffff_ffff_ffff,
    ensures
        r == spec_fmul(a as int, b as int),
{
    let p: i64 = a * b;
    if p >= 0 {
        let q: u64 = (p as u64) / (FX_ONE as u64);
        q as i64
    } else {
        let n: i64 = -p;
        let q: u64 = (n as u64) / (FX_ONE as u64);
        -(q as i64)
    }
}

} // verus!
