//! Controller-wide laws, stated and proved against the contracts of the
//! camera modules.

use vstd::prelude::*;
use crate::camera_config::CameraConfig;
use crate::camera_info::CameraInfoReporter;
use crate::camera_view::{
    CameraView,
    PITCH_LIMIT,
    spec_derived_front,
    spec_derived_right,
    spec_derived_up,
    spec_front_pre,
    spec_get_back_view,
    spec_get_view,
    spec_mirrored,
    spec_world_up,
};
use crate::fixed::{
    FX_ONE,
    lemma_fmul_comm,
    lemma_fmul_neg,
    lemma_fmul_one,
    lemma_fmul_product_bound,
    lemma_fmul_rem,
    lemma_fmul_zero,
    lemma_mul_bound,
    spec_fmul,
};
use crate::input::{MouseDelta, spec_motion_fold, spec_wheel_fold};
use crate::trig::{
    DEG_HALF,
    lemma_cos_fx_bounds,
    lemma_cos_fx_lower_small_pitch,
    lemma_sin_fx_bounds,
    lemma_sin_or_cos_ge_half,
    lemma_wrap_deg_range,
    spec_cos_fx,
    spec_sin_fx,
    spec_wrap_deg,
};
use crate::vec3::{
    Vec3,
    lemma_cross_comps_bounded,
    lemma_div_unit_neg,
    lemma_div_unit_rem,
    lemma_isqrt_bounds,
    lemma_normalized_bounds,
    lemma_normalized_dot_self,
    lemma_squares_nonneg,
    spec_cross,
    spec_div_unit,
    spec_dot,
    spec_isqrt,
    spec_norm2,
    spec_normalized,
};

verus! {

/// Crossing a unit-bounded vector with the world up axis keeps the
/// negated `z` and the `x` component and zeroes the middle: the axis that
/// will become `right` lies in the horizontal plane.
pub proof fn lemma_cross_with_world_up(a: Vec3)
    requires
        -FX_ONE <= a.x <= FX_ONE,
        -FX_ONE <= a.y <= FX_ONE,
        -FX_ONE <= a.z <= FX_ONE,
    ensures
        spec_cross(a, spec_world_up()) == (Vec3 { x: (-a.z) as i64, y: 0i64, z: a.x }),
{
    lemma_fmul_zero(a.y as int);
    lemma_fmul_zero(a.z as int);
    lemma_fmul_zero(a.x as int);
    lemma_fmul_one(a.z as int);
    lemma_fmul_one(a.x as int);
}

/// Orthogonality of the derived basis at the cross-product step: the
/// fixed-point dot product of the front vector with its cross product
/// against the world up axis is exactly zero, because truncation toward
/// zero is odd and the fixed-point product commutes.
pub proof fn lemma_front_right_axis_orthogonal(yaw: int, pitch: int)
    ensures
        spec_dot(
            spec_derived_front(yaw, pitch),
            spec_cross(spec_derived_front(yaw, pitch), spec_world_up()),
        ) == 0,
{
    let f = spec_derived_front(yaw, pitch);
    lemma_normalized_bounds(spec_front_pre(yaw, pitch));
    lemma_cross_with_world_up(f);
    lemma_fmul_neg(f.x as int, f.z as int);
    lemma_fmul_zero(f.y as int);
    lemma_fmul_comm(f.z as int, f.x as int);
}

/// The pre-normalization front vector has components within `FX_ONE`.
proof fn lemma_front_pre_comps_bounded(yaw: int, pitch: int)
    ensures
        -FX_ONE <= spec_front_pre(yaw, pitch).x <= FX_ONE,
        -FX_ONE <= spec_front_pre(yaw, pitch).y <= FX_ONE,
        -FX_ONE <= spec_front_pre(yaw, pitch).z <= FX_ONE,
        spec_front_pre(yaw, pitch).x == spec_fmul(spec_cos_fx(yaw), spec_cos_fx(pitch)),
        spec_front_pre(yaw, pitch).y == spec_sin_fx(pitch),
        spec_front_pre(yaw, pitch).z == spec_fmul(spec_sin_fx(yaw), spec_cos_fx(pitch)),
{
    lemma_sin_fx_bounds(yaw);
    lemma_sin_fx_bounds(pitch);
    lemma_cos_fx_bounds(yaw);
    lemma_cos_fx_bounds(pitch);
    lemma_mul_bound(spec_cos_fx(yaw), spec_cos_fx(pitch), FX_ONE as int, FX_ONE as int);
    lemma_mul_bound(spec_sin_fx(yaw), spec_cos_fx(pitch), FX_ONE as int, FX_ONE as int);
    lemma_fmul_product_bound(spec_cos_fx(yaw), spec_cos_fx(pitch), 1_000_000_000_000);
    lemma_fmul_product_bound(spec_sin_fx(yaw), spec_cos_fx(pitch), 1_000_000_000_000);
}

/// A fixed-point product of a factor of magnitude at least one half with a
/// factor at least `0.0177` has magnitude at least `0.008849`.
proof fn lemma_fmul_big_factors(t: int, cp: int)
    requires
        t >= 500_000 || t <= -500_000,
        -FX_ONE <= t <= FX_ONE,
        17_700 <= cp <= FX_ONE,
    ensures
        spec_fmul(t, cp) >= 8_849 || spec_fmul(t, cp) <= -8_849,
{
    assert(t * cp >= 8_850_000_000 || t * cp <= -8_850_000_000) by (nonlinear_arith)
        requires
            t >= 500_000 || t <= -500_000,
            cp >= 17_700,
    ;
    lemma_fmul_rem(t, cp);
}

/// While the pitch stays within 89 degrees of level, the pre-normalization
/// front vector has a horizontal component of magnitude at least
/// `0.008849`, so its squared norm is well away from zero.
proof fn lemma_front_pre_norm_lower(yaw: int, pitch: int)
    requires
        -89_000_000 <= pitch <= 89_000_000,
    ensures
        spec_norm2(spec_front_pre(yaw, pitch)) >= 8_849 * 8_849,
        spec_front_pre(yaw, pitch).x >= 8_849 || spec_front_pre(yaw, pitch).x <= -8_849
            || spec_front_pre(yaw, pitch).z >= 8_849 || spec_front_pre(yaw, pitch).z <= -8_849,
{
    let fp = spec_front_pre(yaw, pitch);
    lemma_front_pre_comps_bounded(yaw, pitch);
    lemma_sin_or_cos_ge_half(yaw);
    lemma_cos_fx_lower_small_pitch(pitch);
    lemma_sin_fx_bounds(yaw);
    lemma_cos_fx_bounds(yaw);
    lemma_cos_fx_bounds(pitch);
    if spec_cos_fx(yaw) >= 500_000 || spec_cos_fx(yaw) <= -500_000 {
        lemma_fmul_big_factors(spec_cos_fx(yaw), spec_cos_fx(pitch));
    } else {
        lemma_fmul_big_factors(spec_sin_fx(yaw), spec_cos_fx(pitch));
    }
    lemma_squares_nonneg(fp.x as int, fp.y as int, fp.z as int);
    assert(fp.x * fp.x >= 8_849 * 8_849 || fp.z * fp.z >= 8_849 * 8_849) by (nonlinear_arith)
        requires
            fp.x >= 8_849 || fp.x <= -8_849 || fp.z >= 8_849 || fp.z <= -8_849,
    ;
}

/// Unit front: while the pitch stays within 89 degrees of level, the
/// derived front vector has unit length up to a few millionths — its
/// fixed-point dot product with itself lies within `1e-5` of one.
pub proof fn lemma_front_unit_length(yaw: int, pitch: int)
    requires
        -89_000_000 <= pitch <= 89_000_000,
    ensures
        FX_ONE - 8 <= spec_dot(
            spec_derived_front(yaw, pitch),
            spec_derived_front(yaw, pitch),
        ) <= FX_ONE + 5,
{
    lemma_front_pre_comps_bounded(yaw, pitch);
    lemma_front_pre_norm_lower(yaw, pitch);
    lemma_normalized_dot_self(spec_front_pre(yaw, pitch), 8_849);
}

/// The derived front vector keeps a horizontal component of magnitude at
/// least `0.004424` while the pitch stays within 89 degrees, so the right
/// axis it is crossed into is well away from zero.
proof fn lemma_right_pre_norm_lower(yaw: int, pitch: int)
    requires
        -89_000_000 <= pitch <= 89_000_000,
    ensures
        spec_norm2(spec_cross(spec_derived_front(yaw, pitch), spec_world_up())) >= 4_424 * 4_424,
{
    let fp = spec_front_pre(yaw, pitch);
    let f = spec_derived_front(yaw, pitch);
    lemma_front_pre_comps_bounded(yaw, pitch);
    lemma_front_pre_norm_lower(yaw, pitch);
    lemma_normalized_bounds(fp);
    lemma_squares_nonneg(fp.x as int, fp.y as int, fp.z as int);
    let nn = spec_norm2(fp);
    let m = nn * 10_000;
    lemma_isqrt_bounds(m);
    let n = spec_isqrt(m);
    // The squared norm of the scaled vector is at most 3e16, so its root
    // stays below 2e8.
    assert(fp.x * fp.x <= 1_000_000_000_000 && fp.y * fp.y <= 1_000_000_000_000 && fp.z * fp.z
        <= 1_000_000_000_000) by (nonlinear_arith)
        requires
            -FX_ONE <= fp.x <= FX_ONE,
            -FX_ONE <= fp.y <= FX_ONE,
            -FX_ONE <= fp.z <= FX_ONE,
            FX_ONE == 1_000_000,
    ;
    assert(n < 200_000_000) by (nonlinear_arith)
        requires
            n * n <= m,
            m <= 30_000_000_000_000_000,
            n >= 0,
    ;
    assert(nn > 0) by (nonlinear_arith)
        requires
            nn >= 8_849 * 8_849,
    ;
    assert(n >= 1) by (nonlinear_arith)
        requires
            m < (n + 1) * (n + 1),
            m >= 10_000,
            n >= 0,
    ;
    // The big horizontal component survives normalization at a quarter of
    // its scaled magnitude.
    lemma_div_unit_rem(fp.x * 100, n);
    lemma_div_unit_rem(fp.z * 100, n);
    let dx = spec_div_unit(fp.x * 100, n);
    let dz = spec_div_unit(fp.z * 100, n);
    if fp.x >= 8_849 || fp.x <= -8_849 {
        assert(dx >= 4_424 || dx <= -4_424) by (nonlinear_arith)
            requires
                -n < n * dx - (fp.x * 100) * 1_000_000 < n,
                fp.x >= 8_849 || fp.x <= -8_849,
                1 <= n < 200_000_000,
        ;
    } else {
        assert(dz >= 4_424 || dz <= -4_424) by (nonlinear_arith)
            requires
                -n < n * dz - (fp.z * 100) * 1_000_000 < n,
                fp.z >= 8_849 || fp.z <= -8_849,
                1 <= n < 200_000_000,
        ;
    }
    lemma_cross_with_world_up(f);
    let rp = spec_cross(f, spec_world_up());
    assert(rp.x == -f.z && rp.y == 0 && rp.z == f.x);
    assert(f.x == dx && f.z == dz);
    lemma_squares_nonneg(rp.x as int, rp.y as int, rp.z as int);
    assert(spec_norm2(rp) >= 4_424 * 4_424) by (nonlinear_arith)
        requires
            rp.x as int == -(dz as int) && rp.y == 0 && rp.z == dx,
            dx >= 4_424 || dx <= -4_424 || dz >= 4_424 || dz <= -4_424,
    ;
}

/// The derived right vector lies in the horizontal plane.
proof fn lemma_right_horizontal(yaw: int, pitch: int)
    requires
        -89_000_000 <= pitch <= 89_000_000,
    ensures
        spec_derived_right(yaw, pitch).y == 0,
{
    let fp = spec_front_pre(yaw, pitch);
    let f = spec_derived_front(yaw, pitch);
    lemma_front_pre_comps_bounded(yaw, pitch);
    lemma_normalized_bounds(fp);
    lemma_cross_with_world_up(f);
    let rp = spec_cross(f, spec_world_up());
    let nr2 = spec_norm2(rp);
    lemma_squares_nonneg(rp.x as int, rp.y as int, rp.z as int);
    if nr2 == 0 {
        lemma_right_pre_norm_lower(yaw, pitch);
    }
    assert(rp.y == 0);
    let m = nr2 * 10_000;
    lemma_isqrt_bounds(m);
    let n = spec_isqrt(m);
    assert(n >= 1) by (nonlinear_arith)
        requires
            m < (n + 1) * (n + 1),
            m >= 10_000,
            n >= 0,
    ;
    vstd::arithmetic::div_mod::lemma_div_of0(n);
    assert(0 * (FX_ONE as int) == 0) by (nonlinear_arith);
}

/// Lagrange's identity for a first factor lying in the horizontal plane:
/// the squared norm of the cross product is the product of the squared
/// norms minus the squared dot product.  Proved monomial by monomial.
proof fn lemma_lagrange_horizontal(rx: int, rz: int, fx: int, fy: int, fz: int)
    ensures
        (-(rz * fy)) * (-(rz * fy)) + (rz * fx - rx * fz) * (rz * fx - rx * fz) + (rx * fy) * (rx
            * fy) == (rx * rx + rz * rz) * (fx * fx + fy * fy + fz * fz) - (fx * rx + fz * rz) * (
        fx * rx + fz * rz),
{
    let a = rx * rx;
    let b = rz * rz;
    let xx = fx * fx;
    let yy = fy * fy;
    let zz = fz * fz;
    assert((a + b) * (xx + yy + zz) == a * xx + a * yy + a * zz + b * xx + b * yy + b * zz)
        by (nonlinear_arith);
    assert((-(rz * fy)) * (-(rz * fy)) == b * yy) by (nonlinear_arith)
        requires
            b == rz * rz,
            yy == fy * fy,
    ;
    let u = rz * fx;
    let v = rx * fz;
    let p = fx * rx;
    let q = fz * rz;
    assert((u - v) * (u - v) == u * u - 2 * (u * v) + v * v) by (nonlinear_arith);
    assert((p + q) * (p + q) == p * p + 2 * (p * q) + q * q) by (nonlinear_arith);
    assert(u * u == b * xx) by (nonlinear_arith)
        requires
            u == rz * fx,
            b == rz * rz,
            xx == fx * fx,
    ;
    assert(v * v == a * zz) by (nonlinear_arith)
        requires
            v == rx * fz,
            a == rx * rx,
            zz == fz * fz,
    ;
    assert(p * p == a * xx) by (nonlinear_arith)
        requires
            p == fx * rx,
            a == rx * rx,
            xx == fx * fx,
    ;
    assert(q * q == b * zz) by (nonlinear_arith)
        requires
            q == fz * rz,
            b == rz * rz,
            zz == fz * fz,
    ;
    assert((rx * fy) * (rx * fy) == a * yy) by (nonlinear_arith)
        requires
            a == rx * rx,
            yy == fy * fy,
    ;
    assert(u * v == p * q) by (nonlinear_arith)
        requires
            u == rz * fx,
            v == rx * fz,
            p == fx * rx,
            q == fz * rz,
    ;
}

/// While the pitch stays within 89 degrees of level, the cross product of
/// the derived right and front vectors is itself nearly unit: by the
/// Lagrange identity its raw squared norm is the product of the two
/// squared norms minus the squared raw dot product, and all three are
/// known to within a few millionths.
proof fn lemma_up_pre_norm_strong(yaw: int, pitch: int)
    requires
        -89_000_000 <= pitch <= 89_000_000,
    ensures
        spec_norm2(
            spec_cross(spec_derived_right(yaw, pitch), spec_derived_front(yaw, pitch)),
        ) >= 999_979 * 999_979,
{
    let fp = spec_front_pre(yaw, pitch);
    let f = spec_derived_front(yaw, pitch);
    let r = spec_derived_right(yaw, pitch);
    lemma_front_pre_comps_bounded(yaw, pitch);
    lemma_normalized_bounds(fp);
    lemma_normalized_bounds(spec_cross(f, spec_world_up()));
    lemma_front_unit_length(yaw, pitch);
    lemma_right_unit_length(yaw, pitch);
    lemma_front_right_orthogonal(yaw, pitch);
    let fx = f.x as int;
    let fy = f.y as int;
    let fz = f.z as int;
    let rx = r.x as int;
    let rz = r.z as int;
    // The right vector lies in the horizontal plane.
    lemma_cross_with_world_up(f);
    let rp = spec_cross(f, spec_world_up());
    let nr2 = spec_norm2(rp);
    lemma_squares_nonneg(rp.x as int, rp.y as int, rp.z as int);
    if nr2 == 0 {
        lemma_right_pre_norm_lower(yaw, pitch);
    }
    assert(nr2 >= 1);
    lemma_right_horizontal(yaw, pitch);
    // Raw norms and the raw dot product from the fixed-point ones.
    lemma_fmul_rem(fx, fx);
    lemma_fmul_rem(fy, fy);
    lemma_fmul_rem(fz, fz);
    lemma_fmul_rem(rx, rx);
    lemma_fmul_rem(rz, rz);
    lemma_fmul_rem(fx, rx);
    lemma_fmul_rem(fz, rz);
    lemma_fmul_zero(fy);
    lemma_fmul_zero(rx);
    lemma_fmul_zero(rz);
    let a2 = fx * fx + fy * fy + fz * fz;
    let b2 = rx * rx + rz * rz;
    let c = fx * rx + fz * rz;
    lemma_squares_nonneg(fx, fy, fz);
    lemma_squares_nonneg(rx, rz, 0);
    assert(spec_dot(f, f) == spec_fmul(fx, fx) + spec_fmul(fy, fy) + spec_fmul(fz, fz));
    assert(spec_dot(r, r) == spec_fmul(rx, rx) + spec_fmul(rz, rz) + spec_fmul(0, 0));
    assert(spec_dot(f, r) == spec_fmul(fx, rx) + spec_fmul(fy, 0) + spec_fmul(fz, rz));
    lemma_fmul_zero(0);
    lemma_fmul_zero(fy);
    assert(a2 >= 999_992_000_000 && a2 <= 1_000_008_000_000);
    assert(b2 >= 999_992_000_000 && b2 <= 1_000_008_000_000);
    assert(-5_000_000 <= c <= 5_000_000);
    // Lagrange's identity for a horizontal first factor.
    let cx = -(rz * fy);
    let cy = rz * fx - rx * fz;
    let cz = rx * fy;
    lemma_lagrange_horizontal(rx, rz, fx, fy, fz);
    assert(cx * cx + cy * cy + cz * cz == b2 * a2 - c * c);
    assert(b2 * a2 >= 999_984_000_064_000_000_000_000) by (nonlinear_arith)
        requires
            a2 >= 999_992_000_000,
            b2 >= 999_992_000_000,
    ;
    assert(c * c <= 25_000_000_000_000) by (nonlinear_arith)
        requires
            -5_000_000 <= c <= 5_000_000,
    ;
    // Each fixed-point cross component is within two millionths of the raw
    // one, and raw components are bounded by two.
    let up = spec_cross(r, f);
    lemma_cross_comps_bounded(r, f);
    lemma_fmul_rem(rz, fy);
    lemma_fmul_rem(rz, fx);
    lemma_fmul_rem(rx, fz);
    lemma_fmul_rem(rx, fy);
    lemma_fmul_neg(rz, fy);
    assert(up.x as int == spec_fmul(0, fz) - spec_fmul(rz, fy));
    assert(up.y as int == spec_fmul(rz, fx) - spec_fmul(rx, fz));
    assert(up.z as int == spec_fmul(rx, fy) - spec_fmul(0, fx));
    lemma_fmul_comm(0, fz);
    lemma_fmul_comm(0, fx);
    lemma_fmul_zero(fz);
    lemma_fmul_zero(fx);
    let s = FX_ONE as int;
    let u1 = up.x as int;
    let u2 = up.y as int;
    let u3 = up.z as int;
    assert(-2_000_000 < s * u1 - cx < 2_000_000 && -2_000_000 < s * u2 - cy < 2_000_000
        && -2_000_000 < s * u3 - cz < 2_000_000);
    assert(-2_000_000_000_000 <= cx <= 2_000_000_000_000) by (nonlinear_arith)
        requires
            cx == -(rz * fy),
            -1_000_000 <= rz <= 1_000_000,
            -1_000_000 <= fy <= 1_000_000,
    ;
    assert(-2_000_000_000_000 <= cy <= 2_000_000_000_000) by (nonlinear_arith)
        requires
            cy == rz * fx - rx * fz,
            -1_000_000 <= rz <= 1_000_000,
            -1_000_000 <= fx <= 1_000_000,
            -1_000_000 <= rx <= 1_000_000,
            -1_000_000 <= fz <= 1_000_000,
    ;
    assert(-2_000_000_000_000 <= cz <= 2_000_000_000_000) by (nonlinear_arith)
        requires
            cz == rx * fy,
            -1_000_000 <= rx <= 1_000_000,
            -1_000_000 <= fy <= 1_000_000,
    ;
    // Losing at most `4 s |c_i|` per squared component, the fixed-point
    // cross keeps nearly all of the raw squared norm.
    assert((s * u1) * (s * u1) >= cx * cx - 8_000_000_000_000_000_000) by (nonlinear_arith)
        requires
            -2_000_000 < s * u1 - cx < 2_000_000,
            -2_000_000_000_000 <= cx <= 2_000_000_000_000,
            s == 1_000_000,
    ;
    assert((s * u2) * (s * u2) >= cy * cy - 8_000_000_000_000_000_000) by (nonlinear_arith)
        requires
            -2_000_000 < s * u2 - cy < 2_000_000,
            -2_000_000_000_000 <= cy <= 2_000_000_000_000,
            s == 1_000_000,
    ;
    assert((s * u3) * (s * u3) >= cz * cz - 8_000_000_000_000_000_000) by (nonlinear_arith)
        requires
            -2_000_000 < s * u3 - cz < 2_000_000,
            -2_000_000_000_000 <= cz <= 2_000_000_000_000,
            s == 1_000_000,
    ;
    let nu = spec_norm2(up);
    assert((s * s) * nu == (s * u1) * (s * u1) + (s * u2) * (s * u2) + (s * u3) * (s * u3))
        by (nonlinear_arith)
        requires
            nu == u1 * u1 + u2 * u2 + u3 * u3,
            s == 1_000_000,
    ;
    // 999_984_000_064e12 - 25e12 - 24e18 = 999_959_999_*e12: comfortably
    // above (s * (s - 41)) * s^2.
    assert((s * s) * nu >= 999_959_000_000_000_000_000_000);
    assert(nu >= 999_959_000_000) by (nonlinear_arith)
        requires
            (s * s) * nu >= 999_959_000_000_000_000_000_000,
            s == 1_000_000,
    ;
    assert(999_979 * 999_979 <= 999_959_000_000);
}

/// Unit up: while the pitch stays within 89 degrees of level, the derived
/// up vector has unit length up to a few millionths.
pub proof fn lemma_up_unit_length(yaw: int, pitch: int)
    requires
        -89_000_000 <= pitch <= 89_000_000,
    ensures
        FX_ONE - 8 <= spec_dot(
            spec_derived_up(yaw, pitch),
            spec_derived_up(yaw, pitch),
        ) <= FX_ONE + 5,
{
    let fp = spec_front_pre(yaw, pitch);
    let f = spec_derived_front(yaw, pitch);
    let r = spec_derived_right(yaw, pitch);
    lemma_front_pre_comps_bounded(yaw, pitch);
    lemma_normalized_bounds(fp);
    lemma_normalized_bounds(spec_cross(f, spec_world_up()));
    lemma_cross_comps_bounded(r, f);
    lemma_up_pre_norm_strong(yaw, pitch);
    lemma_normalized_dot_self(spec_cross(r, f), 999_979);
}

/// Unit right: while the pitch stays within 89 degrees of level, the
/// derived right vector has unit length up to a few millionths.
pub proof fn lemma_right_unit_length(yaw: int, pitch: int)
    requires
        -89_000_000 <= pitch <= 89_000_000,
    ensures
        FX_ONE - 8 <= spec_dot(
            spec_derived_right(yaw, pitch),
            spec_derived_right(yaw, pitch),
        ) <= FX_ONE + 5,
{
    let fp = spec_front_pre(yaw, pitch);
    let f = spec_derived_front(yaw, pitch);
    lemma_front_pre_comps_bounded(yaw, pitch);
    lemma_normalized_bounds(fp);
    lemma_cross_with_world_up(f);
    lemma_right_pre_norm_lower(yaw, pitch);
    lemma_normalized_dot_self(spec_cross(f, spec_world_up()), 4_424);
}

/// Orthogonality of front and right after normalization: their fixed-point
/// dot product has magnitude at most `3` millionths, at every orientation.
pub proof fn lemma_front_right_orthogonal(yaw: int, pitch: int)
    ensures
        -3 <= spec_dot(spec_derived_front(yaw, pitch), spec_derived_right(yaw, pitch)) <= 3,
{
    let fp = spec_front_pre(yaw, pitch);
    let f = spec_derived_front(yaw, pitch);
    lemma_front_pre_comps_bounded(yaw, pitch);
    lemma_normalized_bounds(fp);
    lemma_cross_with_world_up(f);
    let rp = spec_cross(f, spec_world_up());
    let nr2 = spec_norm2(rp);
    lemma_squares_nonneg(rp.x as int, rp.y as int, rp.z as int);
    if nr2 == 0 {
        // The degenerate vertical case: the right axis collapses to zero
        // and the dot product is exactly zero.
        assert(spec_normalized(rp) == rp);
        lemma_front_right_axis_orthogonal(yaw, pitch);
    } else {
        let m = nr2 * 10_000;
        lemma_isqrt_bounds(m);
        let n = spec_isqrt(m);
        assert(n >= 1) by (nonlinear_arith)
            requires
                m < (n + 1) * (n + 1),
                m >= 10_000,
                nr2 >= 1,
                m == nr2 * 10_000,
                n >= 0,
        ;
        lemma_normalized_bounds(rp);
        lemma_div_unit_neg(f.z * 100, n);
        lemma_div_unit_rem(f.x * 100, n);
        lemma_div_unit_rem(f.z * 100, n);
        let r = spec_derived_right(yaw, pitch);
        let dx = spec_div_unit(f.x * 100, n);
        let dz = spec_div_unit(f.z * 100, n);
        assert((rp.x as int) * 100 == -(f.z * 100)) by (nonlinear_arith)
            requires
                rp.x as int == -(f.z as int),
        ;
        assert(r.x as int == -dz && r.y == 0 && r.z == dx);
        // The cancelling combination `f.x * dz - f.z * dx` is small: the
        // exact parts cancel, only the division remainders stay.
        let ex = n * dx - (f.x * 100) * 1_000_000;
        let ez = n * dz - (f.z * 100) * 1_000_000;
        let t = (f.x as int) * dz - (f.z as int) * dx;
        assert(-2_000_000 * n <= n * t <= 2_000_000 * n) by (nonlinear_arith)
            requires
                ex == n * dx - (f.x * 100) * 1_000_000,
                ez == n * dz - (f.z * 100) * 1_000_000,
                -n < ex < n,
                -n < ez < n,
                t == (f.x as int) * dz - (f.z as int) * dx,
                -1_000_000 <= f.x <= 1_000_000,
                -1_000_000 <= f.z <= 1_000_000,
                1 <= n,
        ;
        assert(-2_000_000 <= t <= 2_000_000) by (nonlinear_arith)
            requires
                -2_000_000 * n <= n * t <= 2_000_000 * n,
                1 <= n,
        ;
        // The three fixed-point products of the dot shave less than one
        // unit each; the middle one is exactly zero.
        lemma_fmul_neg(f.x as int, dz);
        lemma_fmul_zero(f.y as int);
        lemma_fmul_rem(f.x as int, dz);
        lemma_fmul_rem(f.z as int, dx);
        assert(spec_dot(f, r) == -spec_fmul(f.x as int, dz) + spec_fmul(f.z as int, dx));
        assert(-3 <= spec_dot(f, r) <= 3);
    }
}

/// Orthogonality of right and up, and of up and front, after
/// normalization: while the pitch stays within 89 degrees of level, both
/// fixed-point dot products have magnitude at most one hundred-thousandth.
pub proof fn lemma_up_orthogonal(yaw: int, pitch: int)
    requires
        -89_000_000 <= pitch <= 89_000_000,
    ensures
        -6 <= spec_dot(spec_derived_right(yaw, pitch), spec_derived_up(yaw, pitch)) <= 6,
        -10 <= spec_dot(spec_derived_front(yaw, pitch), spec_derived_up(yaw, pitch)) <= 10,
{
    let fp = spec_front_pre(yaw, pitch);
    let f = spec_derived_front(yaw, pitch);
    let r = spec_derived_right(yaw, pitch);
    lemma_front_pre_comps_bounded(yaw, pitch);
    lemma_normalized_bounds(fp);
    lemma_normalized_bounds(spec_cross(f, spec_world_up()));
    lemma_right_horizontal(yaw, pitch);
    let fx = f.x as int;
    let fy = f.y as int;
    let fz = f.z as int;
    let rx = r.x as int;
    let rz = r.z as int;
    let up = spec_cross(r, f);
    lemma_cross_comps_bounded(r, f);
    let u1 = up.x as int;
    let u2 = up.y as int;
    let u3 = up.z as int;
    // The raw cross components, and how far each fixed-point component
    // strays from them.
    let cx = -(rz * fy);
    let cy = rz * fx - rx * fz;
    let cz = rx * fy;
    lemma_fmul_rem(rz, fy);
    lemma_fmul_rem(rz, fx);
    lemma_fmul_rem(rx, fz);
    lemma_fmul_rem(rx, fy);
    lemma_fmul_neg(rz, fy);
    lemma_fmul_comm(0, fz);
    lemma_fmul_comm(0, fx);
    lemma_fmul_zero(fz);
    lemma_fmul_zero(fx);
    let s = FX_ONE as int;
    assert(u1 == spec_fmul(0, fz) - spec_fmul(rz, fy));
    assert(u2 == spec_fmul(rz, fx) - spec_fmul(rx, fz));
    assert(u3 == spec_fmul(rx, fy) - spec_fmul(0, fx));
    let d1 = s * u1 - cx;
    let d2 = s * u2 - cy;
    let d3 = s * u3 - cz;
    assert(-1_000_000 < d1 < 1_000_000);
    assert(-2_000_000 < d2 < 2_000_000);
    assert(-1_000_000 < d3 < 1_000_000);
    // The cross product is orthogonal to both factors exactly, before any
    // rounding: `r . (r x f) == 0` and `f . (r x f) == 0`.
    assert(rx * cx + rz * cz == 0) by (nonlinear_arith)
        requires
            cx == -(rz * fy),
            cz == rx * fy,
    ;
    assert(fx * cx + fy * cy + fz * cz == 0) by (nonlinear_arith)
        requires
            cx == -(rz * fy),
            cy == rz * fx - rx * fz,
            cz == rx * fy,
    ;
    // So the raw dot products against the rounded cross are tiny.
    let rr = rx * u1 + rz * u3;
    assert(s * rr == rx * d1 + rz * d3) by (nonlinear_arith)
        requires
            d1 == s * u1 - cx,
            d3 == s * u3 - cz,
            rr == rx * u1 + rz * u3,
            rx * cx + rz * cz == 0,
    ;
    crate::fixed::lemma_mul_bound(rx, d1, 1_000_000, 1_000_000);
    crate::fixed::lemma_mul_bound(rz, d3, 1_000_000, 1_000_000);
    assert(-2_000_000 <= rr <= 2_000_000) by (nonlinear_arith)
        requires
            s * rr == rx * d1 + rz * d3,
            -1_000_000_000_000 <= rx * d1 <= 1_000_000_000_000,
            -1_000_000_000_000 <= rz * d3 <= 1_000_000_000_000,
            s == 1_000_000,
    ;
    let rf = fx * u1 + fy * u2 + fz * u3;
    assert(s * (fx * u1) == fx * cx + fx * d1) by (nonlinear_arith)
        requires
            d1 == s * u1 - cx,
    ;
    assert(s * (fy * u2) == fy * cy + fy * d2) by (nonlinear_arith)
        requires
            d2 == s * u2 - cy,
    ;
    assert(s * (fz * u3) == fz * cz + fz * d3) by (nonlinear_arith)
        requires
            d3 == s * u3 - cz,
    ;
    assert(s * rf == fx * d1 + fy * d2 + fz * d3);
    crate::fixed::lemma_mul_bound(fx, d1, 1_000_000, 1_000_000);
    crate::fixed::lemma_mul_bound(fy, d2, 1_000_000, 2_000_000);
    crate::fixed::lemma_mul_bound(fz, d3, 1_000_000, 1_000_000);
    assert(-4_000_000 <= rf <= 4_000_000) by (nonlinear_arith)
        requires
            s * rf == fx * d1 + fy * d2 + fz * d3,
            -1_000_000_000_000 <= fx * d1 <= 1_000_000_000_000,
            -2_000_000_000_000 <= fy * d2 <= 2_000_000_000_000,
            -1_000_000_000_000 <= fz * d3 <= 1_000_000_000_000,
            s == 1_000_000,
    ;
    // The up vector's normalization divisor is nearly the scaled unit.
    lemma_up_pre_norm_strong(yaw, pitch);
    let nu2 = spec_norm2(up);
    lemma_squares_nonneg(u1, u2, u3);
    let m = nu2 * 10_000;
    lemma_isqrt_bounds(m);
    let n = spec_isqrt(m);
    assert(n >= 99_997_900) by (nonlinear_arith)
        requires
            nu2 >= 999_979 * 999_979,
            m == nu2 * 10_000,
            m < (n + 1) * (n + 1),
            n >= 0,
    ;
    lemma_normalized_bounds(up);
    lemma_div_unit_rem(u1 * 100, n);
    lemma_div_unit_rem(u2 * 100, n);
    lemma_div_unit_rem(u3 * 100, n);
    let u = spec_derived_up(yaw, pitch);
    let w1 = spec_div_unit(u1 * 100, n);
    let w2 = spec_div_unit(u2 * 100, n);
    let w3 = spec_div_unit(u3 * 100, n);
    assert(u.x == w1 && u.y == w2 && u.z == w3);
    let e1 = n * w1 - (u1 * 100) * s;
    let e2 = n * w2 - (u2 * 100) * s;
    let e3 = n * w3 - (u3 * 100) * s;
    assert(-n < e1 < n && -n < e2 < n && -n < e3 < n);
    // Right against normalized up.
    let t = rx * w1 + rz * w3;
    assert(n * (rx * w1) == 100 * (s * (rx * u1)) + rx * e1) by (nonlinear_arith)
        requires
            e1 == n * w1 - (u1 * 100) * s,
    ;
    assert(n * (rz * w3) == 100 * (s * (rz * u3)) + rz * e3) by (nonlinear_arith)
        requires
            e3 == n * w3 - (u3 * 100) * s,
    ;
    assert(n * t == n * (rx * w1) + n * (rz * w3)) by (nonlinear_arith)
        requires
            t == rx * w1 + rz * w3,
    ;
    assert(n * t == 100 * (s * rr) + (rx * e1 + rz * e3));
    lemma_mul_bound(rx, e1, 1_000_000, n);
    lemma_mul_bound(rz, e3, 1_000_000, n);
    assert(-4_000_042 <= t <= 4_000_042) by (nonlinear_arith)
        requires
            n * t == 100 * (s * rr) + (rx * e1 + rz * e3),
            -2_000_000 <= rr <= 2_000_000,
            -(1_000_000 * n) <= rx * e1 <= 1_000_000 * n,
            -(1_000_000 * n) <= rz * e3 <= 1_000_000 * n,
            s == 1_000_000,
            99_997_900 <= n,
    ;
    lemma_fmul_rem(rx, w1);
    lemma_fmul_rem(rz, w3);
    lemma_fmul_comm(0, w2);
    lemma_fmul_zero(w2);
    assert(spec_dot(r, u) == spec_fmul(rx, w1) + spec_fmul(0, w2) + spec_fmul(rz, w3));
    assert(-6 <= spec_dot(r, u) <= 6);
    // Front against normalized up.
    let t2 = fx * w1 + fy * w2 + fz * w3;
    assert(n * (fx * w1) == 100 * (s * (fx * u1)) + fx * e1) by (nonlinear_arith)
        requires
            e1 == n * w1 - (u1 * 100) * s,
    ;
    assert(n * (fy * w2) == 100 * (s * (fy * u2)) + fy * e2) by (nonlinear_arith)
        requires
            e2 == n * w2 - (u2 * 100) * s,
    ;
    assert(n * (fz * w3) == 100 * (s * (fz * u3)) + fz * e3) by (nonlinear_arith)
        requires
            e3 == n * w3 - (u3 * 100) * s,
    ;
    assert(n * t2 == n * (fx * w1) + n * (fy * w2) + n * (fz * w3)) by (nonlinear_arith)
        requires
            t2 == fx * w1 + fy * w2 + fz * w3,
    ;
    assert(n * t2 == 100 * (s * rf) + (fx * e1 + fy * e2 + fz * e3));
    lemma_mul_bound(fx, e1, 1_000_000, n);
    lemma_mul_bound(fy, e2, 1_000_000, n);
    lemma_mul_bound(fz, e3, 1_000_000, n);
    assert(-7_000_084 <= t2 <= 7_000_084) by (nonlinear_arith)
        requires
            n * t2 == 100 * (s * rf) + (fx * e1 + fy * e2 + fz * e3),
            -4_000_000 <= rf <= 4_000_000,
            -(1_000_000 * n) <= fx * e1 <= 1_000_000 * n,
            -(1_000_000 * n) <= fy * e2 <= 1_000_000 * n,
            -(1_000_000 * n) <= fz * e3 <= 1_000_000 * n,
            s == 1_000_000,
            99_997_900 <= n,
    ;
    lemma_fmul_rem(fx, w1);
    lemma_fmul_rem(fy, w2);
    lemma_fmul_rem(fz, w3);
    assert(spec_dot(f, u) == spec_fmul(fx, w1) + spec_fmul(fy, w2) + spec_fmul(fz, w3));
    assert(-10 <= spec_dot(f, u) <= 10);
}

/// Orthonormality of the derived basis: for any yaw and a pitch within 89
/// degrees of level, front, right and up all have unit length and are
/// mutually orthogonal, to within one hundred-thousandth each.
pub proof fn lemma_basis_orthonormal(yaw: int, pitch: int)
    requires
        -89_000_000 <= pitch <= 89_000_000,
    ensures
        FX_ONE - 10 <= spec_dot(
            spec_derived_front(yaw, pitch),
            spec_derived_front(yaw, pitch),
        ) <= FX_ONE + 10,
        FX_ONE - 10 <= spec_dot(
            spec_derived_right(yaw, pitch),
            spec_derived_right(yaw, pitch),
        ) <= FX_ONE + 10,
        FX_ONE - 10 <= spec_dot(spec_derived_up(yaw, pitch), spec_derived_up(yaw, pitch))
            <= FX_ONE + 10,
        -10 <= spec_dot(spec_derived_front(yaw, pitch), spec_derived_right(yaw, pitch)) <= 10,
        -10 <= spec_dot(spec_derived_right(yaw, pitch), spec_derived_up(yaw, pitch)) <= 10,
        -10 <= spec_dot(spec_derived_up(yaw, pitch), spec_derived_front(yaw, pitch)) <= 10,
{
    lemma_front_unit_length(yaw, pitch);
    lemma_right_unit_length(yaw, pitch);
    lemma_up_unit_length(yaw, pitch);
    lemma_front_right_orthogonal(yaw, pitch);
    lemma_up_orthogonal(yaw, pitch);
    lemma_dot_symmetric(spec_derived_right(yaw, pitch), spec_derived_up(yaw, pitch));
    lemma_dot_symmetric(spec_derived_up(yaw, pitch), spec_derived_front(yaw, pitch));
}

/// The fixed-point dot product is symmetric.
proof fn lemma_dot_symmetric(a: Vec3, b: Vec3)
    ensures
        spec_dot(a, b) == spec_dot(b, a),
{
    lemma_fmul_comm(a.x as int, b.x as int);
    lemma_fmul_comm(a.y as int, b.y as int);
    lemma_fmul_comm(a.z as int, b.z as int);
}

/// Pitch clamp: while pitch is constrained, any non-empty sequence of
/// mouse moves leaves the pitch saturated inside `[-89, 89]` degrees —
/// a move that would exceed a bound stops exactly at it.
pub proof fn lemma_pitch_clamp(v: CameraView, deltas: Seq<MouseDelta>, c: CameraConfig)
    requires
        c.constrain_pitch,
        deltas.len() > 0,
    ensures
        -PITCH_LIMIT <= spec_motion_fold(v, deltas, c).pitch <= PITCH_LIMIT,
{
}

/// Zoom clamp: any sequence of wheel events applied to a zoom already in
/// `[1, 45]` degrees — and any non-empty sequence whatever the starting
/// zoom — leaves the zoom inside `[1, 45]` degrees.
pub proof fn lemma_zoom_clamp(v: CameraView, deltas: Seq<i64>)
    requires
        v.zoom_in_range() || deltas.len() > 0,
    ensures
        spec_wheel_fold(v, deltas).zoom_in_range(),
{
}

/// View/back-view relation: the rear view matrix of a view equals the
/// plain view matrix of the orientation reached by adding half a turn to
/// the yaw and negating the pitch (both wrapped) and rederiving the basis.
pub proof fn lemma_back_view_relation(v: CameraView, w: CameraView, pos: Vec3)
    requires
        w.yaw == spec_wrap_deg(v.yaw + DEG_HALF as int),
        w.pitch == spec_wrap_deg(-v.pitch as int),
        w.zoom == v.zoom,
        w.world_up == v.world_up,
        w.vectors_current(),
    ensures
        spec_get_back_view(v, pos) == spec_get_view(w, pos),
{
    lemma_wrap_deg_range(v.yaw + DEG_HALF as int);
    lemma_wrap_deg_range(-v.pitch as int);
    assert(w == spec_mirrored(v));
}

/// Diagnostic cadence: at one report per second and ticks of 16 ms each, a
/// report is due exactly from the 63rd tick on (at about 1008 ms).
pub proof fn lemma_diagnostic_cadence(rep: CameraInfoReporter, k: nat)
    requires
        rep.config.interval_millis == 1000,
        rep.state.millis_since_last_update == 16 * k,
    ensures
        rep.due() <==> k >= 63,
{
}

} // verus!
