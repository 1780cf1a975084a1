use freelook_camera::fixed::{fmul, FX_ONE};
use freelook_camera::trig::{cos_fx, sin_fx, wrap_deg};
use freelook_camera::vec3::{isqrt, Vec3};

#[test]
fn fmul_exact_products() {
    assert_eq!(fmul(3_000_000, 2_000_000), 6_000_000);
    assert_eq!(fmul(10_000, 1_000_000_000), 10_000_000);
    assert_eq!(fmul(-1_500_000, 1_000), -1_500);
    assert_eq!(fmul(0, 123_456), 0);
    assert_eq!(fmul(123_456, FX_ONE), 123_456);
}

#[test]
fn fmul_truncates_toward_zero() {
    assert_eq!(fmul(1, 999_999), 0);
    assert_eq!(fmul(-1, 999_999), 0);
    assert_eq!(fmul(-1_999_999, 1), -1);
    assert_eq!(fmul(1_999_999, -1), -1);
}

#[test]
fn wrap_deg_identity_in_range() {
    assert_eq!(wrap_deg(0), 0);
    assert_eq!(wrap_deg(-90_000_000), -90_000_000);
    assert_eq!(wrap_deg(180_000_000), 180_000_000);
    assert_eq!(wrap_deg(-179_999_999), -179_999_999);
}

#[test]
fn wrap_deg_wraps_out_of_range() {
    assert_eq!(wrap_deg(190_000_000), -170_000_000);
    assert_eq!(wrap_deg(-190_000_000), 170_000_000);
    assert_eq!(wrap_deg(360_000_000), 0);
    assert_eq!(wrap_deg(540_000_000), 180_000_000);
    assert_eq!(wrap_deg(-180_000_000), 180_000_000);
    assert_eq!(wrap_deg(725_000_000), 5_000_000);
}

#[test]
fn sine_exact_at_quarter_turns() {
    assert_eq!(sin_fx(0), 0);
    assert_eq!(sin_fx(90_000_000), 1_000_000);
    assert_eq!(sin_fx(-90_000_000), -1_000_000);
    assert_eq!(sin_fx(180_000_000), 0);
    assert_eq!(sin_fx(-180_000_000), 0);
}

#[test]
fn cosine_exact_at_quarter_turns() {
    assert_eq!(cos_fx(0), 1_000_000);
    assert_eq!(cos_fx(90_000_000), 0);
    assert_eq!(cos_fx(-90_000_000), 0);
    assert_eq!(cos_fx(180_000_000), -1_000_000);
}

#[test]
fn sine_exact_at_thirty_degrees() {
    // The rational approximation happens to be exact at 30 and 150 degrees.
    assert_eq!(sin_fx(30_000_000), 500_000);
    assert_eq!(sin_fx(150_000_000), 500_000);
    assert_eq!(sin_fx(-30_000_000), -500_000);
}

#[test]
fn sine_close_to_reference_everywhere() {
    // The approximation is within 0.0017 of real sine over the whole circle.
    let mut deg: i64 = -180;
    while deg <= 180 {
        let got = sin_fx(deg * 1_000_000) as f64 / 1e6;
        let want = (deg as f64).to_radians().sin();
        assert!((got - want).abs() < 0.0017, "sin {} got {} want {}", deg, got, want);
        deg += 7;
    }
}

#[test]
fn isqrt_exact_values() {
    assert_eq!(isqrt(0), 0);
    assert_eq!(isqrt(1), 1);
    assert_eq!(isqrt(2), 1);
    assert_eq!(isqrt(3), 1);
    assert_eq!(isqrt(4), 2);
    assert_eq!(isqrt(999_999_999_999), 999_999);
    assert_eq!(isqrt(1_000_000_000_000), 1_000_000);
    assert_eq!(isqrt(2_000_000_000_000), 1_414_213);
}

#[test]
fn vector_ops_componentwise() {
    let a = Vec3::new(1_000_000, -2_000_000, 3_000_000);
    let b = Vec3::new(500_000, 500_000, -500_000);
    assert_eq!(a.plus(b), Vec3::new(1_500_000, -1_500_000, 2_500_000));
    assert_eq!(a.minus(b), Vec3::new(500_000, -2_500_000, 3_500_000));
    assert_eq!(a.scale(2_000_000), Vec3::new(2_000_000, -4_000_000, 6_000_000));
    // 0.5 - 1.0 - 1.5 = -2.0
    assert_eq!(a.dot(b), -2_000_000);
}

#[test]
fn cross_product_axes() {
    let x = Vec3::new(1_000_000, 0, 0);
    let y = Vec3::new(0, 1_000_000, 0);
    let z = Vec3::new(0, 0, 1_000_000);
    assert_eq!(x.cross(y), z);
    assert_eq!(y.cross(z), x);
    assert_eq!(z.cross(x), y);
    assert_eq!(y.cross(x), Vec3::new(0, 0, -1_000_000));
}

#[test]
fn normalized_scales_to_unit() {
    assert_eq!(Vec3::new(2_000_000, 0, 0).normalized(), Vec3::new(1_000_000, 0, 0));
    assert_eq!(Vec3::new(0, -3_000_000, 0).normalized(), Vec3::new(0, -1_000_000, 0));
    assert_eq!(Vec3::new(0, 0, 0).normalized(), Vec3::new(0, 0, 0));
    let d = Vec3::new(1_000_000, 1_000_000, 1_000_000).normalized();
    assert_eq!(d.x, d.y);
    assert_eq!(d.y, d.z);
    let len = ((d.x as f64).powi(2) + (d.y as f64).powi(2) + (d.z as f64).powi(2)).sqrt() / 1e6;
    assert!((len - 1.0).abs() < 1e-5, "length {}", len);
}
