//! Orientation state: yaw, pitch, zoom, and the derived orthonormal basis.
//!
//! Yaw and pitch are stored in micro-degrees, wrapped into
//! `(-180, 180]` degrees; the basis derived from them is unchanged by the
//! wrapping, since sine and cosine are periodic.  The zoom is the
//! field-of-view angle in micro-degrees, clamped to `[1, 45]` degrees.

use vstd::prelude::*;
use crate::fixed::{FX_ONE, fmul, spec_fmul};
use crate::trig::{
    ANGLE_ARG_LIMIT,
    DEG_HALF,
    cos_fx,
    sin_fx,
    spec_cos_fx,
    spec_sin_fx,
    spec_wrap_deg,
    wrap_deg,
};
use crate::vec3::{
    Vec3,
    lemma_cross_comps_bounded,
    lemma_normalized_bounds,
    spec_cross,
    spec_minus,
    spec_normalized,
    spec_plus,
    spec_scale,
};
use crate::mat4::{Mat4, look_at, spec_look_at};
use crate::camera_config::CameraConfig;
use crate::camera_position::{CameraMovement, CameraPosition, POS_LIMIT};

verus! {

/// Pitch saturates at this magnitude (89 degrees) while constrained.
pub const PITCH_LIMIT: i64 = 89_000_000;

/// The narrowest field of view (1 degree).
pub const ZOOM_MIN: i64 = 1_000_000;

/// The widest field of view (45 degrees), also the default.
pub const ZOOM_MAX: i64 = 45_000_000;

/// The widest mouse-motion or wheel delta accepted per event (1000 pixels
/// or wheel units, fixed-point).
pub const DELTA_LIMIT: i64 = 1_000_000_000;

/// The widest `mov_speed * dt_ms` product accepted per keyboard move
/// (250_000 units of displacement).
pub const VELOCITY_LIMIT: i64 = 250_000_000_000;

/// The fixed world up axis, `(0, 1, 0)`; never renormalized against skew.
pub open spec fn spec_world_up() -> Vec3 {
    Vec3 { x: 0i64, y: FX_ONE, z: 0i64 }
}

/// The front vector before normalization: the spherical-to-Cartesian
/// conversion of yaw and pitch.
pub open spec fn spec_front_pre(yaw: int, pitch: int) -> Vec3 {
    Vec3 {
        x: spec_fmul(spec_cos_fx(yaw), spec_cos_fx(pitch)) as i64,
        y: spec_sin_fx(pitch) as i64,
        z: spec_fmul(spec_sin_fx(yaw), spec_cos_fx(pitch)) as i64,
    }
}

/// The unit front vector derived from yaw and pitch.
pub open spec fn spec_derived_front(yaw: int, pitch: int) -> Vec3 {
    spec_normalized(spec_front_pre(yaw, pitch))
}

/// The unit right vector: normalized cross product of front and world up.
pub open spec fn spec_derived_right(yaw: int, pitch: int) -> Vec3 {
    spec_normalized(spec_cross(spec_derived_front(yaw, pitch), spec_world_up()))
}

/// The unit up vector: normalized cross product of right and front.
pub open spec fn spec_derived_up(yaw: int, pitch: int) -> Vec3 {
    spec_normalized(
        spec_cross(spec_derived_right(yaw, pitch), spec_derived_front(yaw, pitch)),
    )
}

/// Orientation state plus the orthonormal basis derived from it.
#[derive(Clone, Copy, Debug, PartialEq, Eq, Structural)]
pub struct CameraView {
    pub front: Vec3,
    pub up: Vec3,
    pub right: Vec3,
    pub world_up: Vec3,
    pub yaw: i64,
    pub pitch: i64,
    pub zoom: i64,
}

/// Initial orientation for [`CameraView::new`].
#[derive(Clone, Copy, Debug, PartialEq, Eq, Structural)]
pub struct CameraViewOpts {
    pub yaw: i64,
    pub pitch: i64,
}

impl Default for CameraViewOpts {
    /// Yaw of -90 degrees (looking down negative z) and level pitch.
    fn default() -> (r: CameraViewOpts)
        ensures
            r == (CameraViewOpts { yaw: -90_000_000i64, pitch: 0i64 }),
    {
        CameraViewOpts { yaw: -90_000_000, pitch: 0 }
    }
}

/// The yaw after a mouse move: the horizontal delta scaled by the mouse
/// sensitivity is added, then the angle is wrapped.
pub open spec fn spec_yaw_after(v: CameraView, dx: int, c: CameraConfig) -> int {
    spec_wrap_deg(v.yaw + spec_fmul(dx, c.mouse_sensitivity as int))
}

/// The pitch after a mouse move: the vertical delta scaled by the mouse
/// sensitivity is subtracted (inverted-drag convention); a constrained
/// pitch saturates at `[-89, 89]` degrees, an unconstrained one wraps.
pub open spec fn spec_pitch_after(v: CameraView, dy: int, c: CameraConfig) -> int {
    let raw = v.pitch - spec_fmul(dy, c.mouse_sensitivity as int);
    if c.constrain_pitch {
        if raw > PITCH_LIMIT as int {
            PITCH_LIMIT as int
        } else if raw < -(PITCH_LIMIT as int) {
            -(PITCH_LIMIT as int)
        } else {
            raw
        }
    } else {
        spec_wrap_deg(raw)
    }
}

/// The zoom after a wheel event: the delta is subtracted and the result
/// clamped to `[ZOOM_MIN, ZOOM_MAX]`.
pub open spec fn spec_zoom_after(zoom: int, dy: int) -> int {
    let raw = zoom - dy;
    if raw < ZOOM_MIN as int {
        ZOOM_MIN as int
    } else if raw > ZOOM_MAX as int {
        ZOOM_MAX as int
    } else {
        raw
    }
}

/// The displacement velocity of one keyboard move: speed times elapsed
/// milliseconds.
pub open spec fn spec_velocity(c: CameraConfig, dt_ms: int) -> int {
    c.mov_speed * dt_ms
}

/// The position reached by one keyboard move: the front (respectively
/// right) vector scaled by the velocity is added for Forward (Right) and
/// subtracted for Backward (Left).
pub open spec fn spec_keyboard_move(
    v: CameraView,
    direction: CameraMovement,
    pos: Vec3,
    c: CameraConfig,
    dt_ms: int,
) -> Vec3 {
    let vel = spec_velocity(c, dt_ms);
    match direction {
        CameraMovement::Forward => spec_plus(pos, spec_scale(v.front, vel)),
        CameraMovement::Backward => spec_minus(pos, spec_scale(v.front, vel)),
        CameraMovement::Left => spec_minus(pos, spec_scale(v.right, vel)),
        CameraMovement::Right => spec_plus(pos, spec_scale(v.right, vel)),
    }
}

/// The whole view after one mouse-motion delta: both angles move as
/// [`spec_yaw_after`] and [`spec_pitch_after`] say, and the basis is
/// rederived from them.
pub open spec fn spec_mouse_move_view(
    v: CameraView,
    dx: int,
    dy: int,
    c: CameraConfig,
) -> CameraView {
    let yaw2 = spec_yaw_after(v, dx, c);
    let pitch2 = spec_pitch_after(v, dy, c);
    CameraView {
        front: spec_derived_front(yaw2, pitch2),
        right: spec_derived_right(yaw2, pitch2),
        up: spec_derived_up(yaw2, pitch2),
        world_up: v.world_up,
        yaw: yaw2 as i64,
        pitch: pitch2 as i64,
        zoom: v.zoom,
    }
}

/// The whole view after one wheel delta: only the zoom moves.
pub open spec fn spec_mouse_wheel_view(v: CameraView, dy: int) -> CameraView {
    CameraView { zoom: spec_zoom_after(v.zoom as int, dy) as i64, ..v }
}

/// The view matrix: the look-at construction with the eye at `pos`, the
/// target one front vector ahead, and the view's own up vector.
pub open spec fn spec_get_view(v: CameraView, pos: Vec3) -> Mat4 {
    spec_look_at(pos, v.front, v.up)
}

/// The orientation mirrored for the rear view: half a turn added to the
/// yaw, the pitch negated (both wrapped), and the basis rederived.
pub open spec fn spec_mirrored(v: CameraView) -> CameraView {
    let yaw2 = spec_wrap_deg(v.yaw + DEG_HALF as int);
    let pitch2 = spec_wrap_deg(-v.pitch);
    CameraView {
        front: spec_derived_front(yaw2, pitch2),
        right: spec_derived_right(yaw2, pitch2),
        up: spec_derived_up(yaw2, pitch2),
        world_up: v.world_up,
        yaw: yaw2 as i64,
        pitch: pitch2 as i64,
        zoom: v.zoom,
    }
}

/// The rear view matrix: the view matrix of the mirrored orientation.
pub open spec fn spec_get_back_view(v: CameraView, pos: Vec3) -> Mat4 {
    spec_get_view(spec_mirrored(v), pos)
}

impl CameraView {
    /// Both stored angles are wrapped into `(-180, 180]` degrees.
    pub open spec fn angles_in_range(self) -> bool {
        &&& -DEG_HALF < self.yaw <= DEG_HALF
        &&& -DEG_HALF < self.pitch <= DEG_HALF
    }

    /// The zoom is clamped to `[ZOOM_MIN, ZOOM_MAX]`.
    pub open spec fn zoom_in_range(self) -> bool {
        ZOOM_MIN <= self.zoom <= ZOOM_MAX
    }

    /// Every basis component is a fixed-point value in `[-1, 1]`.
    pub open spec fn basis_bounded(self) -> bool {
        &&& -FX_ONE <= self.front.x <= FX_ONE
        &&& -FX_ONE <= self.front.y <= FX_ONE
        &&& -FX_ONE <= self.front.z <= FX_ONE
        &&& -FX_ONE <= self.right.x <= FX_ONE
        &&& -FX_ONE <= self.right.y <= FX_ONE
        &&& -FX_ONE <= self.right.z <= FX_ONE
        &&& -FX_ONE <= self.up.x <= FX_ONE
        &&& -FX_ONE <= self.up.y <= FX_ONE
        &&& -FX_ONE <= self.up.z <= FX_ONE
    }

    /// Well-formedness: wrapped angles, clamped zoom, the fixed world up
    /// axis, and a bounded basis.
    pub open spec fn wf(self) -> bool {
        &&& self.angles_in_range()
        &&& self.zoom_in_range()
        &&& self.world_up == spec_world_up()
        &&& self.basis_bounded()
    }

    /// The stored basis is the one derived from the stored yaw and pitch.
    pub open spec fn vectors_current(self) -> bool {
        &&& self.front == spec_derived_front(self.yaw as int, self.pitch as int)
        &&& self.right == spec_derived_right(self.yaw as int, self.pitch as int)
        &&& self.up == spec_derived_up(self.yaw as int, self.pitch as int)
    }

    /// Creates a view with the given initial orientation, the default zoom
    /// of 45 degrees, and a freshly derived basis.
    pub fn new(opts: CameraViewOpts) -> (r: CameraView)
        requires
            -ANGLE_ARG_LIMIT <= opts.yaw <= ANGLE_ARG_LIMIT,
            -ANGLE_ARG_LIMIT <= opts.pitch <= ANGLE_ARG_LIMIT,
        ensures
            r.yaw == spec_wrap_deg(opts.yaw as int),
            r.pitch == spec_wrap_deg(opts.pitch as int),
            r.zoom == ZOOM_MAX,
            r.world_up == spec_world_up(),
            r.wf(),
            r.vectors_current(),
    {
        let mut view = CameraView {
            front: Vec3 { x: 0, y: 0, z: -FX_ONE },
            up: Vec3 { x: 0, y: 0, z: 0 },
            right: Vec3 { x: 0, y: 0, z: 0 },
            world_up: Vec3 { x: 0, y: FX_ONE, z: 0 },
            yaw: wrap_deg(opts.yaw),
            pitch: wrap_deg(opts.pitch),
            zoom: ZOOM_MAX,
        };
        view.update_camera_vectors();
        view
    }

    /// Rederives front, right and up from the stored yaw and pitch.  Must
    /// run after every yaw or pitch mutation before the basis is read.
    pub fn update_camera_vectors(&mut self)
        requires
            -DEG_HALF < old(self).yaw <= DEG_HALF,
            -DEG_HALF < old(self).pitch <= DEG_HALF,
            old(self).world_up == spec_world_up(),
        ensures
            final(self).front == spec_derived_front(old(self).yaw as int, old(self).pitch as int),
            final(self).right == spec_derived_right(old(self).yaw as int, old(self).pitch as int),
            final(self).up == spec_derived_up(old(self).yaw as int, old(self).pitch as int),
            final(self).yaw == old(self).yaw,
            final(self).pitch == old(self).pitch,
            final(self).zoom == old(self).zoom,
            final(self).world_up == old(self).world_up,
            final(self).vectors_current(),
            final(self).basis_bounded(),
    {
        let cy = cos_fx(self.yaw);
        let sy = sin_fx(self.yaw);
        let cp = cos_fx(self.pitch);
        let sp = sin_fx(self.pitch);
        proof {
            crate::fixed::lemma_mul_bound(cy as int, cp as int, FX_ONE as int, FX_ONE as int);
            crate::fixed::lemma_mul_bound(sy as int, cp as int, FX_ONE as int, FX_ONE as int);
            crate::fixed::lemma_fmul_product_bound(cy as int, cp as int, 1_000_000_000_000);
            crate::fixed::lemma_fmul_product_bound(sy as int, cp as int, 1_000_000_000_000);
        }
        let front_pre = Vec3 { x: fmul(cy, cp), y: sp, z: fmul(sy, cp) };
        assert(front_pre == spec_front_pre(self.yaw as int, self.pitch as int));
        self.front = front_pre.normalized();
        proof {
            lemma_cross_comps_bounded(self.front, self.world_up);
        }
        self.right = self.front.cross(self.world_up).normalized();
        proof {
            lemma_cross_comps_bounded(self.right, self.front);
        }
        self.up = self.right.cross(self.front).normalized();
    }

    /// Applies one mouse-motion delta: yaw and pitch move by the delta
    /// scaled with the mouse sensitivity (the vertical axis inverted, a
    /// design choice of the controller), pitch saturating at 89 degrees
    /// while constrained, and the basis is rederived.
    pub fn process_mouse_move(&mut self, dx: i64, dy: i64, config: &CameraConfig)
        requires
            old(self).wf(),
            config.wf(),
            -DELTA_LIMIT <= dx <= DELTA_LIMIT,
            -DELTA_LIMIT <= dy <= DELTA_LIMIT,
        ensures
            final(self).yaw == spec_yaw_after(*old(self), dx as int, *config),
            final(self).pitch == spec_pitch_after(*old(self), dy as int, *config),
            final(self).zoom == old(self).zoom,
            final(self).world_up == old(self).world_up,
            final(self).vectors_current(),
            final(self).wf(),
            config.constrain_pitch ==> -PITCH_LIMIT <= final(self).pitch <= PITCH_LIMIT,
            *final(self) == spec_mouse_move_view(*old(self), dx as int, dy as int, *config),
    {
        proof {
            crate::fixed::lemma_mul_bound(
                dx as int,
                config.mouse_sensitivity as int,
                DELTA_LIMIT as int,
                crate::camera_config::TUNABLE_LIMIT as int,
            );
            crate::fixed::lemma_mul_bound(
                dy as int,
                config.mouse_sensitivity as int,
                DELTA_LIMIT as int,
                crate::camera_config::TUNABLE_LIMIT as int,
            );
            crate::fixed::lemma_fmul_product_bound(
                dx as int,
                config.mouse_sensitivity as int,
                1_000_000_000_000_000_000,
            );
            crate::fixed::lemma_fmul_product_bound(
                dy as int,
                config.mouse_sensitivity as int,
                1_000_000_000_000_000_000,
            );
        }
        let ddx = fmul(dx, config.mouse_sensitivity);
        let ddy = fmul(dy, config.mouse_sensitivity);
        self.yaw = wrap_deg(self.yaw + ddx);
        self.pitch = self.pitch - ddy;
        if config.constrain_pitch {
            self.constrain_pitch();
        } else {
            self.pitch = wrap_deg(self.pitch);
        }
        self.update_camera_vectors();
    }

    /// Saturates the pitch at `[-PITCH_LIMIT, PITCH_LIMIT]`.
    fn constrain_pitch(&mut self)
        ensures
            final(self).pitch == if old(self).pitch > PITCH_LIMIT {
                PITCH_LIMIT as int
            } else if old(self).pitch < -PITCH_LIMIT {
                -PITCH_LIMIT as int
            } else {
                old(self).pitch as int
            },
            final(self).yaw == old(self).yaw,
            final(self).zoom == old(self).zoom,
            final(self).front == old(self).front,
            final(self).right == old(self).right,
            final(self).up == old(self).up,
            final(self).world_up == old(self).world_up,
    {
        if self.pitch > 89_000_000 {
            self.pitch = 89_000_000;
        }
        if self.pitch < -89_000_000 {
            self.pitch = -89_000_000;
        }
    }

    /// Applies one wheel delta: the zoom (field of view) moves opposite to
    /// the delta and is clamped to `[ZOOM_MIN, ZOOM_MAX]`.
    pub fn process_mouse_wheel(&mut self, dy: i64)
        requires
            old(self).wf(),
            -DELTA_LIMIT <= dy <= DELTA_LIMIT,
        ensures
            final(self).zoom == spec_zoom_after(old(self).zoom as int, dy as int),
            final(self).yaw == old(self).yaw,
            final(self).pitch == old(self).pitch,
            final(self).front == old(self).front,
            final(self).right == old(self).right,
            final(self).up == old(self).up,
            final(self).world_up == old(self).world_up,
            final(self).wf(),
            old(self).vectors_current() ==> final(self).vectors_current(),
            *final(self) == spec_mouse_wheel_view(*old(self), dy as int),
    {
        self.zoom = self.zoom - dy;
        if self.zoom < 1_000_000 {
            self.zoom = 1_000_000;
        }
        if self.zoom > 45_000_000 {
            self.zoom = 45_000_000;
        }
    }

    /// The position one keyboard move away; does not mutate the view.
    /// Movement scales with the elapsed milliseconds, which makes it
    /// frame-rate independent.
    pub fn process_keyboard(
        &self,
        direction: CameraMovement,
        position: &CameraPosition,
        config: &CameraConfig,
        dt_ms: u64,
    ) -> (r: Vec3)
        requires
            self.wf(),
            config.wf(),
            position.in_range(),
            dt_ms <= 1_000_000_000,
            -VELOCITY_LIMIT <= config.mov_speed * dt_ms <= VELOCITY_LIMIT,
        ensures
            r == spec_keyboard_move(*self, direction, position.pos, *config, dt_ms as int),
            -VELOCITY_LIMIT <= r.x - position.pos.x <= VELOCITY_LIMIT,
            -VELOCITY_LIMIT <= r.y - position.pos.y <= VELOCITY_LIMIT,
            -VELOCITY_LIMIT <= r.z - position.pos.z <= VELOCITY_LIMIT,
    {
        let velocity: i64 = config.mov_speed * (dt_ms as i64);
        proof {
            lemma_scaled_axis_bounded(self.front, velocity as int);
            lemma_scaled_axis_bounded(self.right, velocity as int);
        }
        match direction {
            CameraMovement::Forward => position.pos().plus(self.front.scale(velocity)),
            CameraMovement::Backward => position.pos().minus(self.front.scale(velocity)),
            CameraMovement::Left => position.pos().minus(self.right.scale(velocity)),
            CameraMovement::Right => position.pos().plus(self.right.scale(velocity)),
        }
    }

    /// The view matrix for an eye at `position`: the look-at construction
    /// with the target one front vector ahead and this view's up vector.
    pub fn get_view(&self, position: &CameraPosition) -> (r: Mat4)
        requires
            self.wf(),
            position.in_range(),
        ensures
            r == spec_get_view(*self, position.pos),
    {
        let target = position.pos().plus(self.front);
        let r = look_at(position.pos(), target, self.up);
        proof {
            assert(spec_minus(spec_plus(position.pos, self.front), position.pos) == self.front);
        }
        r
    }

    /// The rear view matrix: the view matrix of a temporary orientation
    /// with half a turn added to the yaw and the pitch negated.
    pub fn get_back_view(&self, position: &CameraPosition) -> (r: Mat4)
        requires
            self.wf(),
            position.in_range(),
        ensures
            r == spec_get_back_view(*self, position.pos),
    {
        let mut reversed = self.clone();
        reversed.yaw = wrap_deg(reversed.yaw + 180_000_000);
        reversed.pitch = wrap_deg(-reversed.pitch);
        reversed.update_camera_vectors();
        reversed.get_view(position)
    }
}

/// A unit axis scaled by a velocity within `VELOCITY_LIMIT` moves every
/// coordinate by at most `VELOCITY_LIMIT`, with no product leaving `i64`.
proof fn lemma_scaled_axis_bounded(axis: Vec3, vel: int)
    requires
        -FX_ONE <= axis.x <= FX_ONE,
        -FX_ONE <= axis.y <= FX_ONE,
        -FX_ONE <= axis.z <= FX_ONE,
        -VELOCITY_LIMIT <= vel <= VELOCITY_LIMIT,
    ensures
        -250_000_000_000_000_000 <= axis.x * vel <= 250_000_000_000_000_000,
        -250_000_000_000_000_000 <= axis.y * vel <= 250_000_000_000_000_000,
        -250_000_000_000_000_000 <= axis.z * vel <= 250_000_000_000_000_000,
        -VELOCITY_LIMIT <= spec_scale(axis, vel).x <= VELOCITY_LIMIT,
        -VELOCITY_LIMIT <= spec_scale(axis, vel).y <= VELOCITY_LIMIT,
        -VELOCITY_LIMIT <= spec_scale(axis, vel).z <= VELOCITY_LIMIT,
{
    crate::fixed::lemma_mul_bound(axis.x as int, vel, FX_ONE as int, VELOCITY_LIMIT as int);
    crate::fixed::lemma_mul_bound(axis.y as int, vel, FX_ONE as int, VELOCITY_LIMIT as int);
    crate::fixed::lemma_mul_bound(axis.z as int, vel, FX_ONE as int, VELOCITY_LIMIT as int);
    crate::fixed::lemma_fmul_product_bound(axis.x as int, vel, 250_000_000_000_000_000);
    crate::fixed::lemma_fmul_product_bound(axis.y as int, vel, 250_000_000_000_000_000);
    crate::fixed::lemma_fmul_product_bound(axis.z as int, vel, 250_000_000_000_000_000);
}

} // verus!
