//! 4x4 view matrices in fixed point.
//!
//! The only constructor is the look-at construction: given an eye position,
//! a target point, and an up vector, it builds the matrix that maps world
//! space into camera space.

use vstd::prelude::*;
use crate::fixed::FX_ONE;
use crate::camera_position::POS_LIMIT;
use crate::vec3::{
    Vec3,
    VEC_COMP_LIMIT,
    lemma_cross_comps_bounded,
    spec_cross,
    spec_dot,
    spec_minus,
    spec_normalized,
};

verus! {

/// A 4x4 matrix of fixed-point scalars, row-major: `m01` is row 0,
/// column 1.
#[derive(Clone, Copy, Debug, PartialEq, Eq, Structural)]
pub struct Mat4 {
    pub m00: i64,
    pub m01: i64,
    pub m02: i64,
    pub m03: i64,
    pub m10: i64,
    pub m11: i64,
    pub m12: i64,
    pub m13: i64,
    pub m20: i64,
    pub m21: i64,
    pub m22: i64,
    pub m23: i64,
    pub m30: i64,
    pub m31: i64,
    pub m32: i64,
    pub m33: i64,
}

/// The look-at view matrix for an eye at `eye` looking along `dir` with the
/// given up vector: rows are the normalized side axis, the derived up axis,
/// and the negated normalized view direction, each with its translation
/// term; the last row is `(0, 0, 0, 1)`.
pub open spec fn spec_look_at(eye: Vec3, dir: Vec3, up: Vec3) -> Mat4 {
    let f = spec_normalized(dir);
    let s = spec_normalized(spec_cross(f, up));
    let u = spec_cross(s, f);
    Mat4 {
        m00: s.x,
        m01: s.y,
        m02: s.z,
        m03: (-spec_dot(s, eye)) as i64,
        m10: u.x,
        m11: u.y,
        m12: u.z,
        m13: (-spec_dot(u, eye)) as i64,
        m20: (-f.x) as i64,
        m21: (-f.y) as i64,
        m22: (-f.z) as i64,
        m23: spec_dot(f, eye) as i64,
        m30: 0i64,
        m31: 0i64,
        m32: 0i64,
        m33: FX_ONE,
    }
}

/// The identity matrix, the transform of a freshly created camera before
/// its first tick.
pub open spec fn spec_mat4_identity() -> Mat4 {
    Mat4 {
        m00: FX_ONE,
        m01: 0i64,
        m02: 0i64,
        m03: 0i64,
        m10: 0i64,
        m11: FX_ONE,
        m12: 0i64,
        m13: 0i64,
        m20: 0i64,
        m21: 0i64,
        m22: FX_ONE,
        m23: 0i64,
        m30: 0i64,
        m31: 0i64,
        m32: 0i64,
        m33: FX_ONE,
    }
}

/// Builds the identity matrix.
pub fn mat4_identity() -> (r: Mat4)
    ensures
        r == spec_mat4_identity(),
{
    Mat4 {
        m00: FX_ONE,
        m01: 0,
        m02: 0,
        m03: 0,
        m10: 0,
        m11: FX_ONE,
        m12: 0,
        m13: 0,
        m20: 0,
        m21: 0,
        m22: FX_ONE,
        m23: 0,
        m30: 0,
        m31: 0,
        m32: 0,
        m33: FX_ONE,
    }
}

/// Builds the look-at view matrix for an eye at `eye` looking at `target`.
pub fn look_at(eye: Vec3, target: Vec3, up: Vec3) -> (r: Mat4)
    requires
        -POS_LIMIT <= eye.x <= POS_LIMIT,
        -POS_LIMIT <= eye.y <= POS_LIMIT,
        -POS_LIMIT <= eye.z <= POS_LIMIT,
        -VEC_COMP_LIMIT <= target.x - eye.x <= VEC_COMP_LIMIT,
        -VEC_COMP_LIMIT <= target.y - eye.y <= VEC_COMP_LIMIT,
        -VEC_COMP_LIMIT <= target.z - eye.z <= VEC_COMP_LIMIT,
        -FX_ONE <= up.x <= FX_ONE,
        -FX_ONE <= up.y <= FX_ONE,
        -FX_ONE <= up.z <= FX_ONE,
    ensures
        r == spec_look_at(eye, spec_minus(target, eye), up),
{
    let dir = target.minus(eye);
    let f = dir.normalized();
    proof {
        lemma_cross_comps_bounded(f, up);
    }
    let s = f.cross(up).normalized();
    proof {
        lemma_cross_comps_bounded(s, f);
    }
    let u = s.cross(f);
    proof {
        lemma_translation_products_fit(s, eye);
        lemma_translation_products_fit(u, eye);
        lemma_translation_products_fit(f, eye);
    }
    let tx = s.dot(eye);
    let ty = u.dot(eye);
    let tz = f.dot(eye);
    Mat4 {
        m00: s.x,
        m01: s.y,
        m02: s.z,
        m03: -tx,
        m10: u.x,
        m11: u.y,
        m12: u.z,
        m13: -ty,
        m20: -f.x,
        m21: -f.y,
        m22: -f.z,
        m23: tz,
        m30: 0,
        m31: 0,
        m32: 0,
        m33: FX_ONE,
    }
}

/// The translation terms of the view matrix fit: every component product
/// of a short axis vector with an in-range eye position stays inside
/// `i64`, and so does the resulting fixed-point dot product.
proof fn lemma_translation_products_fit(axis: Vec3, eye: Vec3)
    requires
        -2_000_000 <= axis.x <= 2_000_000,
        -2_000_000 <= axis.y <= 2_000_000,
        -2_000_000 <= axis.z <= 2_000_000,
        -POS_LIMIT <= eye.x <= POS_LIMIT,
        -POS_LIMIT <= eye.y <= POS_LIMIT,
        -POS_LIMIT <= eye.z <= POS_LIMIT,
    ensures
        -8_000_000_000_000_000_000 <= axis.x * eye.x <= 8_000_000_000_000_000_000,
        -8_000_000_000_000_000_000 <= axis.y * eye.y <= 8_000_000_000_000_000_000,
        -8_000_000_000_000_000_000 <= axis.z * eye.z <= 8_000_000_000_000_000_000,
        -24_000_000_000_000 <= spec_dot(axis, eye) <= 24_000_000_000_000,
{
    crate::fixed::lemma_mul_bound(axis.x as int, eye.x as int, 2_000_000, POS_LIMIT as int);
    crate::fixed::lemma_mul_bound(axis.y as int, eye.y as int, 2_000_000, POS_LIMIT as int);
    crate::fixed::lemma_mul_bound(axis.z as int, eye.z as int, 2_000_000, POS_LIMIT as int);
    crate::fixed::lemma_fmul_product_bound(axis.x as int, eye.x as int, 8_000_000_000_000_000_000);
    crate::fixed::lemma_fmul_product_bound(axis.y as int, eye.y as int, 8_000_000_000_000_000_000);
    crate::fixed::lemma_fmul_product_bound(axis.z as int, eye.z as int, 8_000_000_000_000_000_000);
}

} // verus!
