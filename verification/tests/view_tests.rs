use freelook_camera::camera_config::CameraConfig;
use freelook_camera::camera_position::{CameraMovement, CameraPosition};
use freelook_camera::camera_view::{CameraView, CameraViewOpts};
use freelook_camera::mat4::Mat4;
use freelook_camera::vec3::Vec3;

fn default_view() -> CameraView {
    CameraView::new(CameraViewOpts::default())
}

fn vec_f64(v: Vec3) -> (f64, f64, f64) {
    (v.x as f64 / 1e6, v.y as f64 / 1e6, v.z as f64 / 1e6)
}

fn dot_f64(a: Vec3, b: Vec3) -> f64 {
    let (ax, ay, az) = vec_f64(a);
    let (bx, by, bz) = vec_f64(b);
    ax * bx + ay * by + az * bz
}

fn len_f64(a: Vec3) -> f64 {
    dot_f64(a, a).sqrt()
}

#[test]
fn default_orientation_faces_negative_z() {
    let v = default_view();
    assert_eq!(v.yaw, -90_000_000);
    assert_eq!(v.pitch, 0);
    assert_eq!(v.zoom, 45_000_000);
    assert_eq!(v.front, Vec3::new(0, 0, -1_000_000));
    assert_eq!(v.right, Vec3::new(1_000_000, 0, 0));
    assert_eq!(v.up, Vec3::new(0, 1_000_000, 0));
    assert_eq!(v.world_up, Vec3::new(0, 1_000_000, 0));
}

#[test]
fn basis_orthonormal_across_orientations() {
    let yaws: [i64; 7] = [
        -180_000_000,
        -90_000_000,
        -37_250_000,
        0,
        41_500_000,
        90_000_000,
        179_900_000,
    ];
    let pitches: [i64; 5] = [-89_000_000, -45_500_000, 0, 30_200_000, 89_000_000];
    for &yaw in yaws.iter() {
        for &pitch in pitches.iter() {
            let v = CameraView::new(CameraViewOpts { yaw, pitch });
            assert!((len_f64(v.front) - 1.0).abs() < 1e-5, "front {} {}", yaw, pitch);
            assert!((len_f64(v.right) - 1.0).abs() < 1e-5, "right {} {}", yaw, pitch);
            assert!((len_f64(v.up) - 1.0).abs() < 1e-5, "up {} {}", yaw, pitch);
            assert!(dot_f64(v.front, v.right).abs() < 1e-5, "f.r {} {}", yaw, pitch);
            assert!(dot_f64(v.right, v.up).abs() < 1e-5, "r.u {} {}", yaw, pitch);
            assert!(dot_f64(v.up, v.front).abs() < 1e-5, "u.f {} {}", yaw, pitch);
        }
    }
}

#[test]
fn pitch_saturates_at_limits() {
    let config = CameraConfig::default();
    let mut v = CameraView::new(CameraViewOpts { yaw: -90_000_000, pitch: 88_000_000 });
    // dy of -50 pixels at sensitivity 0.1 asks for +5 degrees: saturate at 89.
    v.process_mouse_move(0, -50_000_000, &config);
    assert_eq!(v.pitch, 89_000_000);
    // Pushing further up stays exactly at the limit.
    v.process_mouse_move(0, -400_000_000, &config);
    assert_eq!(v.pitch, 89_000_000);
    // A large downward drag of 90 degrees is applied exactly.
    v.process_mouse_move(0, 900_000_000, &config);
    assert_eq!(v.pitch, -1_000_000);
    // Another 90 degrees down would reach -91: saturate exactly at -89.
    v.process_mouse_move(0, 900_000_000, &config);
    assert_eq!(v.pitch, -89_000_000);
    // A small move away from the limit is applied exactly.
    v.process_mouse_move(0, -10_000_000, &config);
    assert_eq!(v.pitch, -88_000_000);
}

#[test]
fn unconstrained_pitch_accumulates() {
    let config = CameraConfig { mov_speed: 10_000, mouse_sensitivity: 100_000, constrain_pitch: false };
    let mut v = CameraView::new(CameraViewOpts { yaw: -90_000_000, pitch: 88_000_000 });
    v.process_mouse_move(0, -50_000_000, &config);
    assert_eq!(v.pitch, 93_000_000);
}

#[test]
fn mouse_move_scales_with_sensitivity() {
    let config = CameraConfig::default();
    let mut v = default_view();
    v.process_mouse_move(50_000_000, 0, &config);
    assert_eq!(v.yaw, -85_000_000);
    assert_eq!(v.pitch, 0);
    v.process_mouse_move(-20_000_000, 30_000_000, &config);
    assert_eq!(v.yaw, -87_000_000);
    assert_eq!(v.pitch, -3_000_000);
}

#[test]
fn zoom_clamps_to_range() {
    let mut v = default_view();
    assert_eq!(v.zoom, 45_000_000);
    v.process_mouse_wheel(5_000_000);
    assert_eq!(v.zoom, 40_000_000);
    v.process_mouse_wheel(100_000_000);
    assert_eq!(v.zoom, 1_000_000);
    v.process_mouse_wheel(500_000);
    assert_eq!(v.zoom, 1_000_000);
    v.process_mouse_wheel(-100_000_000);
    assert_eq!(v.zoom, 45_000_000);
    v.process_mouse_wheel(-1);
    assert_eq!(v.zoom, 45_000_000);
}

#[test]
fn zoom_survives_repeated_wheel_storm() {
    let mut v = default_view();
    let mut i: i64 = 0;
    while i < 200 {
        v.process_mouse_wheel(if i % 2 == 0 { 900_000_000 } else { -899_000_000 });
        assert!(v.zoom >= 1_000_000 && v.zoom <= 45_000_000, "zoom {}", v.zoom);
        i += 1;
    }
}

#[test]
fn keyboard_displacement_forward_backward() {
    let v = default_view();
    let config = CameraConfig::default();
    let origin = CameraPosition::new(Vec3::new(0, 0, 0));
    // front = (0, 0, -1), speed 0.01 units/ms, 1000 ms: ten units forward.
    let forward = v.process_keyboard(CameraMovement::Forward, &origin, &config, 1000);
    assert_eq!(forward, Vec3::new(0, 0, -10_000_000));
    let backward = v.process_keyboard(CameraMovement::Backward, &origin, &config, 1000);
    assert_eq!(backward, Vec3::new(0, 0, 10_000_000));
    let left = v.process_keyboard(CameraMovement::Left, &origin, &config, 1000);
    assert_eq!(left, Vec3::new(-10_000_000, 0, 0));
    let right = v.process_keyboard(CameraMovement::Right, &origin, &config, 1000);
    assert_eq!(right, Vec3::new(10_000_000, 0, 0));
}

#[test]
fn view_matrix_of_default_camera() {
    let v = default_view();
    let pos = CameraPosition::new(Vec3::new(0, 0, 3_000_000));
    let m = v.get_view(&pos);
    let expected = Mat4 {
        m00: 1_000_000,
        m01: 0,
        m02: 0,
        m03: 0,
        m10: 0,
        m11: 1_000_000,
        m12: 0,
        m13: 0,
        m20: 0,
        m21: 0,
        m22: 1_000_000,
        m23: -3_000_000,
        m30: 0,
        m31: 0,
        m32: 0,
        m33: 1_000_000,
    };
    assert_eq!(m, expected);
}

#[test]
fn back_view_equals_view_of_mirrored_orientation() {
    let pos = CameraPosition::new(Vec3::new(2_000_000, -1_000_000, 3_000_000));
    let cases: [(i64, i64); 4] = [
        (-90_000_000, 0),
        (-60_000_000, 30_000_000),
        (120_000_000, -45_000_000),
        (179_000_000, 89_000_000),
    ];
    for &(yaw, pitch) in cases.iter() {
        let v = CameraView::new(CameraViewOpts { yaw, pitch });
        let mirrored = CameraView::new(CameraViewOpts { yaw: yaw + 180_000_000, pitch: -pitch });
        assert_eq!(v.get_back_view(&pos), mirrored.get_view(&pos), "case {} {}", yaw, pitch);
    }
}

#[test]
fn position_moves_by_deltas() {
    let mut p = CameraPosition::default();
    assert_eq!(p.pos(), Vec3::new(0, 0, 3_000_000));
    assert!(p.is_dirty);
    p.is_dirty = false;
    p.inc_pos(Vec3::new(1, 2, 3));
    assert_eq!(p.pos(), Vec3::new(1, 2, 3_000_003));
    assert!(p.is_dirty);
    p.dec_pos(Vec3::new(2, 2, 2));
    assert_eq!(p.pos(), Vec3::new(-1, 0, 3_000_001));
}

#[test]
fn config_defaults() {
    let c = CameraConfig::default();
    assert_eq!(c.mov_speed, 10_000);
    assert_eq!(c.mouse_sensitivity, 100_000);
    assert!(c.constrain_pitch);
    let o = CameraViewOpts::default();
    assert_eq!(o.yaw, -90_000_000);
    assert_eq!(o.pitch, 0);
}
