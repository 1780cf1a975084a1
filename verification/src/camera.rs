//! The camera aggregate and the ordered per-tick pipeline.
//!
//! One camera instance owns its tunables, position, orientation, derived
//! transform, and field-of-view value.  The pipeline runs the update stages
//! in the fixed order input translation, view-matrix update, diagnostics —
//! a plain composition, not a plugin registry — so the render phase can
//! read the transform after the tick completes.

use vstd::prelude::*;
use crate::camera_config::CameraConfig;
use crate::camera_info::{CameraInfo, CameraInfoConfig, CameraInfoReporter, CameraInfoState, spec_fps};
use crate::camera_position::CameraPosition;
use crate::camera_view::{CameraView, CameraViewOpts, ZOOM_MAX, spec_get_view};
use crate::fixed::FX_ONE;
use crate::input::{
    InputTranslator,
    POS_SOFT_LIMIT,
    TickInput,
    spec_button_state_after,
    spec_keyboard_positions,
    spec_view_after_tick,
};
use crate::mat4::{Mat4, mat4_identity, spec_mat4_identity};
use crate::trig::{ANGLE_ARG_LIMIT, spec_wrap_deg};
use crate::updater::ViewMatrixUpdater;
use crate::vec3::Vec3;

verus! {

/// One camera instance: tunables, mutable state, the derived transform,
/// and the projection field-of-view kept in sync with the zoom.
#[derive(Clone, Copy, Debug)]
pub struct Camera {
    pub config: CameraConfig,
    pub position: CameraPosition,
    pub view: CameraView,
    pub view_dirty: bool,
    pub transform: Mat4,
    pub fov: i64,
}

impl Camera {
    pub open spec fn wf(self) -> bool {
        &&& self.config.wf()
        &&& self.view.wf()
    }

    /// The position leaves one full keyboard tick of headroom below the
    /// hard coordinate limit.
    pub open spec fn in_soft_range(self) -> bool {
        &&& -POS_SOFT_LIMIT <= self.position.pos.x <= POS_SOFT_LIMIT
        &&& -POS_SOFT_LIMIT <= self.position.pos.y <= POS_SOFT_LIMIT
        &&& -POS_SOFT_LIMIT <= self.position.pos.z <= POS_SOFT_LIMIT
    }
}

/// Construction options for a camera: initial position and orientation,
/// and optional diagnostics.  Omitted pieces take the documented defaults.
#[derive(Clone, Copy, Debug)]
pub struct AddCameraOpts {
    pub position: Vec3,
    pub view: CameraViewOpts,
    pub info: Option<CameraInfoConfig>,
}

impl Default for AddCameraOpts {
    /// Three units back from the origin, the default orientation, and no
    /// diagnostics.
    fn default() -> (r: AddCameraOpts)
        ensures
            r.position == (Vec3 { x: 0i64, y: 0i64, z: (3 * FX_ONE) as i64 }),
            r.view == (CameraViewOpts { yaw: -90_000_000i64, pitch: 0i64 }),
            r.info is None,
    {
        AddCameraOpts {
            position: Vec3 { x: 0, y: 0, z: 3 * FX_ONE },
            view: Default::default(),
            info: None,
        }
    }
}

/// The ordered update pipeline of one camera: the translator's drag state,
/// the updater's recompute counter, and the optional diagnostic reporter.
#[derive(Clone, Copy, Debug)]
pub struct CameraPipeline {
    pub camera: Camera,
    pub translator: InputTranslator,
    pub updater: ViewMatrixUpdater,
    pub reporter: Option<CameraInfoReporter>,
}

impl CameraPipeline {
    /// Creates a camera from its options, with the default tunables, both
    /// dirty flags set (so the first tick computes a transform), and the
    /// identity transform until then.
    pub fn new(opts: AddCameraOpts) -> (r: CameraPipeline)
        requires
            -ANGLE_ARG_LIMIT <= opts.view.yaw <= ANGLE_ARG_LIMIT,
            -ANGLE_ARG_LIMIT <= opts.view.pitch <= ANGLE_ARG_LIMIT,
        ensures
            r.camera.config == (CameraConfig {
                mov_speed: 10_000i64,
                mouse_sensitivity: 100_000i64,
                constrain_pitch: true,
            }),
            r.camera.position.pos == opts.position,
            r.camera.position.is_dirty,
            r.camera.view.yaw == spec_wrap_deg(opts.view.yaw as int),
            r.camera.view.pitch == spec_wrap_deg(opts.view.pitch as int),
            r.camera.view.zoom == ZOOM_MAX,
            r.camera.view.wf(),
            r.camera.view.vectors_current(),
            r.camera.view_dirty,
            r.camera.transform == spec_mat4_identity(),
            r.camera.fov == ZOOM_MAX,
            !r.translator.left_button_pressed,
            r.updater.recompute_count == 0,
            match opts.info {
                Some(c) => r.reporter == Some(CameraInfoReporter {
                    config: c,
                    state: CameraInfoState {
                        millis_since_last_update: 0u64,
                        frames_since_last_update: 0u64,
                    },
                }),
                None => r.reporter is None,
            },
    {
        let config: CameraConfig = Default::default();
        let view = CameraView::new(opts.view);
        let camera = Camera {
            config,
            position: CameraPosition::new(opts.position),
            view,
            view_dirty: true,
            transform: mat4_identity(),
            fov: ZOOM_MAX,
        };
        let reporter = match opts.info {
            Some(c) => Some(CameraInfoReporter::new(c)),
            None => None,
        };
        CameraPipeline {
            camera,
            translator: Default::default(),
            updater: Default::default(),
            reporter,
        }
    }

    /// Runs one tick, in the fixed order: input translation mutates the
    /// position and view and marks what changed; the view-matrix updater
    /// recomputes the transform exactly once if anything did and pushes
    /// the zoom into the field of view; the reporter accumulates time and
    /// yields a diagnostic report when its interval has elapsed.
    pub fn tick(&mut self, input: &TickInput) -> (report: Option<CameraInfo>)
        requires
            old(self).camera.wf(),
            old(self).camera.in_soft_range(),
            input.bounded(old(self).camera.config),
            old(self).updater.recompute_count < u64::MAX,
            match old(self).reporter {
                Some(rep) => rep.state.millis_since_last_update + input.dt_ms <= u64::MAX
                    && rep.state.frames_since_last_update < u64::MAX,
                None => true,
            },
        ensures
            final(self).camera.config == old(self).camera.config,
            final(self).camera.wf(),
            final(self).camera.position.in_range(),
            final(self).translator.left_button_pressed == spec_button_state_after(
                old(self).translator.left_button_pressed,
                input.button_events@,
            ),
            final(self).camera.position.pos == spec_keyboard_positions(
                old(self).camera.view,
                old(self).camera.position.pos,
                old(self).camera.config,
                input.keys,
                input.dt_ms as int,
            ),
            final(self).camera.view == spec_view_after_tick(
                old(self).camera.view,
                final(self).translator.left_button_pressed,
                input.motion_events@,
                input.wheel_events@,
                old(self).camera.config,
            ),
            ({
                let pos_dirty = old(self).camera.position.is_dirty || input.keys.any();
                let view_dirty = old(self).camera.view_dirty || (
                final(self).translator.left_button_pressed && input.motion_events@.len() > 0)
                    || input.wheel_events@.len() > 0;
                if pos_dirty || view_dirty {
                    &&& final(self).camera.transform == spec_get_view(
                        final(self).camera.view,
                        final(self).camera.position.pos,
                    )
                    &&& final(self).updater.recompute_count == old(self).updater.recompute_count
                        + 1
                    &&& !final(self).camera.position.is_dirty
                    &&& !final(self).camera.view_dirty
                } else {
                    &&& final(self).camera.transform == old(self).camera.transform
                    &&& final(self).updater.recompute_count == old(self).updater.recompute_count
                    &&& final(self).camera.position.is_dirty == old(
                        self,
                    ).camera.position.is_dirty
                    &&& final(self).camera.view_dirty == old(self).camera.view_dirty
                }
            }),
            final(self).camera.fov == if input.wheel_events@.len() > 0 {
                final(self).camera.view.zoom as int
            } else {
                old(self).camera.fov as int
            },
            match old(self).reporter {
                None => final(self).reporter is None && report is None,
                Some(rep) => ({
                    let millis = rep.state.millis_since_last_update + input.dt_ms;
                    let frames = rep.state.frames_since_last_update + 1;
                    if millis >= rep.config.interval_millis {
                        &&& report == Some(CameraInfo {
                            pos: final(self).camera.position.pos,
                            pitch: final(self).camera.view.pitch,
                            yaw: final(self).camera.view.yaw,
                            fps: spec_fps(millis as int, frames as int),
                        })
                        &&& final(self).reporter == Some(CameraInfoReporter {
                            config: rep.config,
                            state: CameraInfoState {
                                millis_since_last_update: 0u64,
                                frames_since_last_update: 0u64,
                            },
                        })
                    } else {
                        &&& report is None
                        &&& final(self).reporter == Some(CameraInfoReporter {
                            config: rep.config,
                            state: CameraInfoState {
                                millis_since_last_update: millis as u64,
                                frames_since_last_update: frames as u64,
                            },
                        })
                    }
                }),
            },
    {
        let view_changed = self.translator.translate(
            &mut self.camera.view,
            &mut self.camera.position,
            &self.camera.config,
            input,
        );
        if view_changed {
            self.camera.view_dirty = true;
        }
        if input.wheel_events.len() > 0 {
            self.camera.fov = self.camera.view.zoom;
        }
        self.updater.run(
            &self.camera.view,
            &mut self.camera.view_dirty,
            &mut self.camera.position,
            &mut self.camera.transform,
        );
        match &mut self.reporter {
            Some(rep) => {
                rep.on_tick(input.dt_ms);
                rep.take_report(&self.camera.view, &self.camera.position)
            },
            None => None,
        }
    }
}

} // verus!
