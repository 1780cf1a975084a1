use freelook_camera::camera::{AddCameraOpts, CameraPipeline};
use freelook_camera::camera_info::{CameraInfoConfig, CameraInfoOutput};
use freelook_camera::camera_view::CameraViewOpts;
use freelook_camera::input::{InputTranslator, KeysHeld, MouseButtonEvent, MouseDelta, TickInput};
use freelook_camera::vec3::Vec3;

fn quiet_tick(dt_ms: u64) -> TickInput {
    TickInput {
        dt_ms,
        keys: KeysHeld::none(),
        button_events: vec![],
        motion_events: vec![],
        wheel_events: vec![],
    }
}

#[test]
fn drag_gating_ignores_motion_while_released() {
    let mut p = CameraPipeline::new(AddCameraOpts::default());
    let mut t = quiet_tick(16);
    t.motion_events = vec![MouseDelta { dx: 50_000_000, dy: 0 }];
    p.tick(&t);
    assert_eq!(p.camera.view.yaw, -90_000_000);
    assert_eq!(p.camera.view.pitch, 0);
}

#[test]
fn drag_gating_applies_motion_after_press() {
    let mut p = CameraPipeline::new(AddCameraOpts::default());
    let mut t = quiet_tick(16);
    t.button_events = vec![MouseButtonEvent::Pressed];
    t.motion_events = vec![MouseDelta { dx: 50_000_000, dy: 0 }];
    p.tick(&t);
    // Yaw changed by 50 * 0.1 degrees; pitch unchanged.
    assert_eq!(p.camera.view.yaw, -85_000_000);
    assert_eq!(p.camera.view.pitch, 0);
    // A release gates motion off again.
    let mut t2 = quiet_tick(16);
    t2.button_events = vec![MouseButtonEvent::Released];
    t2.motion_events = vec![MouseDelta { dx: 50_000_000, dy: 0 }];
    p.tick(&t2);
    assert_eq!(p.camera.view.yaw, -85_000_000);
}

#[test]
fn button_queue_drained_in_order() {
    let mut s = InputTranslator::default();
    assert!(!s.left_button_pressed);
    let mut view = freelook_camera::camera_view::CameraView::new(CameraViewOpts::default());
    let mut pos = freelook_camera::camera_position::CameraPosition::default();
    let config = freelook_camera::camera_config::CameraConfig::default();
    let mut t = quiet_tick(16);
    t.button_events = vec![
        MouseButtonEvent::Pressed,
        MouseButtonEvent::Released,
        MouseButtonEvent::Pressed,
        MouseButtonEvent::Released,
    ];
    s.translate(&mut view, &mut pos, &config, &t);
    assert!(!s.left_button_pressed);
    t.button_events = vec![MouseButtonEvent::Released, MouseButtonEvent::Pressed];
    s.translate(&mut view, &mut pos, &config, &t);
    assert!(s.left_button_pressed);
}

#[test]
fn all_queued_motion_events_processed() {
    let mut p = CameraPipeline::new(AddCameraOpts::default());
    let mut t = quiet_tick(16);
    t.button_events = vec![MouseButtonEvent::Pressed];
    t.motion_events = vec![
        MouseDelta { dx: 10_000_000, dy: 0 },
        MouseDelta { dx: 20_000_000, dy: 0 },
        MouseDelta { dx: -5_000_000, dy: 10_000_000 },
    ];
    p.tick(&t);
    // Yaw moved by (10 + 20 - 5) * 0.1 = 2.5 degrees; pitch by -1 degree.
    assert_eq!(p.camera.view.yaw, -87_500_000);
    assert_eq!(p.camera.view.pitch, -1_000_000);
}

#[test]
fn diagonal_movement_composes_sequentially() {
    let mut p = CameraPipeline::new(AddCameraOpts::default());
    let mut t = quiet_tick(1000);
    t.keys = KeysHeld { forward: true, backward: false, left: false, right: true };
    p.tick(&t);
    // Forward moves 10 units along -z, then Right moves 10 units along +x:
    // diagonal speed is not normalized.
    assert_eq!(p.camera.position.pos, Vec3::new(10_000_000, 0, -7_000_000));
}

#[test]
fn single_recompute_when_both_inputs_change() {
    let mut p = CameraPipeline::new(AddCameraOpts::default());
    // The first tick recomputes once: both parts start dirty.
    p.tick(&quiet_tick(16));
    assert_eq!(p.updater.recompute_count, 1);
    assert!(!p.camera.position.is_dirty);
    assert!(!p.camera.view_dirty);
    // One tick that changes both the position and the view.
    let mut t = quiet_tick(16);
    t.keys = KeysHeld { forward: true, backward: false, left: false, right: false };
    t.button_events = vec![MouseButtonEvent::Pressed];
    t.motion_events = vec![MouseDelta { dx: 50_000_000, dy: 0 }];
    p.tick(&t);
    assert_eq!(p.updater.recompute_count, 2);
    // The transform reflects the freshest value of both inputs.
    assert_eq!(p.camera.transform, p.camera.view.get_view(&p.camera.position));
    assert!(!p.camera.position.is_dirty);
    assert!(!p.camera.view_dirty);
    // A quiet tick recomputes nothing.
    let before = p.camera.transform;
    p.tick(&quiet_tick(16));
    assert_eq!(p.updater.recompute_count, 2);
    assert_eq!(p.camera.transform, before);
}

#[test]
fn wheel_updates_zoom_and_field_of_view() {
    let mut p = CameraPipeline::new(AddCameraOpts::default());
    assert_eq!(p.camera.fov, 45_000_000);
    let mut t = quiet_tick(16);
    t.wheel_events = vec![5_000_000, 2_000_000];
    p.tick(&t);
    assert_eq!(p.camera.view.zoom, 38_000_000);
    assert_eq!(p.camera.fov, 38_000_000);
    // Without wheel events the field of view is left alone.
    p.tick(&quiet_tick(16));
    assert_eq!(p.camera.fov, 38_000_000);
}

#[test]
fn diagnostic_cadence_first_report_on_tick_63() {
    let opts = AddCameraOpts {
        position: Vec3::new(0, 0, 3_000_000),
        view: CameraViewOpts::default(),
        info: Some(CameraInfoConfig { interval_millis: 1000, output: CameraInfoOutput::Console }),
    };
    let mut p = CameraPipeline::new(opts);
    let mut tick_no: u64 = 0;
    while tick_no < 62 {
        assert!(p.tick(&quiet_tick(16)).is_none(), "early report at tick {}", tick_no + 1);
        tick_no += 1;
    }
    // The 63rd tick reaches 1008 ms and reports.
    let report = p.tick(&quiet_tick(16));
    let info = report.expect("a report is due on the 63rd tick");
    assert_eq!(info.pos, Vec3::new(0, 0, 3_000_000));
    assert_eq!(info.pitch, 0);
    assert_eq!(info.yaw, -90_000_000);
    // Average frame time 1008 / 63 = 16 ms: 62.5 frames per second, rounded up.
    assert_eq!(info.fps, Some(63));
    // The accumulators reset immediately after the report.
    match p.reporter {
        Some(rep) => {
            assert_eq!(rep.state.millis_since_last_update, 0);
            assert_eq!(rep.state.frames_since_last_update, 0);
        },
        None => panic!("reporter lost"),
    }
    // The next report again takes 63 ticks.
    let mut again: u64 = 0;
    while again < 62 {
        assert!(p.tick(&quiet_tick(16)).is_none());
        again += 1;
    }
    assert!(p.tick(&quiet_tick(16)).is_some());
}

#[test]
fn diagnostic_fps_unbounded_below_one_millisecond() {
    let opts = AddCameraOpts {
        position: Vec3::new(0, 0, 0),
        view: CameraViewOpts::default(),
        info: Some(CameraInfoConfig { interval_millis: 1, output: CameraInfoOutput::Console }),
    };
    let mut p = CameraPipeline::new(opts);
    assert!(p.tick(&quiet_tick(0)).is_none());
    let info = p.tick(&quiet_tick(1)).expect("interval reached");
    // 1 ms over 2 frames truncates to an average of 0 ms: no finite rate.
    assert_eq!(info.fps, None);
}

#[test]
fn no_reporter_no_reports() {
    let mut p = CameraPipeline::new(AddCameraOpts::default());
    assert!(p.tick(&quiet_tick(1000)).is_none());
    assert!(p.tick(&quiet_tick(1000)).is_none());
}
