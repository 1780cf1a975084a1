//! Per-tick translation of raw input into camera state mutations.
//!
//! Every queue is drained in full each tick, in arrival order; partially
//! draining or reordering across ticks would desynchronize the yaw and
//! pitch accumulation.  Mouse-look deltas apply only while the left button
//! is held (drag-to-look), the controller's only explicit state machine.

use vstd::prelude::*;
use crate::camera_config::CameraConfig;
use crate::camera_position::{CameraMovement, CameraPosition};
use crate::camera_view::{
    CameraView,
    DELTA_LIMIT,
    VELOCITY_LIMIT,
    spec_keyboard_move,
    spec_mouse_move_view,
    spec_mouse_wheel_view,
};
use crate::vec3::Vec3;

verus! {

/// The coordinate magnitude up to which one full keyboard tick (at most
/// four moves) keeps the position inside `POS_LIMIT`.
pub const POS_SOFT_LIMIT: i64 = 3_000_000_000_000;

/// One press or release of the primary (left) pointer button.
#[derive(Clone, Copy, Debug, PartialEq, Eq, Structural)]
pub enum MouseButtonEvent {
    Pressed,
    Released,
}

/// One 2D pointer-motion delta, in fixed-point pixels.
#[derive(Clone, Copy, Debug, PartialEq, Eq, Structural)]
pub struct MouseDelta {
    pub dx: i64,
    pub dy: i64,
}

/// Which of the four movement keys are held this tick.
#[derive(Clone, Copy, Debug, PartialEq, Eq, Structural)]
pub struct KeysHeld {
    pub forward: bool,
    pub backward: bool,
    pub left: bool,
    pub right: bool,
}

impl KeysHeld {
    /// At least one movement key is held.
    pub open spec fn any(self) -> bool {
        self.forward || self.backward || self.left || self.right
    }

    pub fn none() -> (r: KeysHeld)
        ensures
            r == (KeysHeld { forward: false, backward: false, left: false, right: false }),
    {
        KeysHeld { forward: false, backward: false, left: false, right: false }
    }
}

/// Everything the host hands the controller for one tick: the elapsed
/// time and the input queues, each consumed once in full.
#[derive(Clone, Debug)]
pub struct TickInput {
    pub dt_ms: u64,
    pub keys: KeysHeld,
    pub button_events: Vec<MouseButtonEvent>,
    pub motion_events: Vec<MouseDelta>,
    pub wheel_events: Vec<i64>,
}

impl TickInput {
    /// The elapsed time, every queued delta, and the speed-times-time
    /// product are within the ranges the arithmetic admits.
    pub open spec fn bounded(self, c: CameraConfig) -> bool {
        &&& self.dt_ms <= 1_000_000_000
        &&& -VELOCITY_LIMIT <= c.mov_speed * self.dt_ms <= VELOCITY_LIMIT
        &&& forall|i: int|
            0 <= i < self.motion_events@.len() ==> {
                &&& -DELTA_LIMIT <= #[trigger] self.motion_events@[i].dx <= DELTA_LIMIT
                &&& -DELTA_LIMIT <= self.motion_events@[i].dy <= DELTA_LIMIT
            }
        &&& forall|i: int|
            0 <= i < self.wheel_events@.len() ==> -DELTA_LIMIT <= #[trigger] self.wheel_events@[i]
                <= DELTA_LIMIT
    }
}

/// The button state after draining a queue of press/release events in
/// order: the last event decides; an empty queue leaves the state alone.
pub open spec fn spec_button_state_after(init: bool, events: Seq<MouseButtonEvent>) -> bool {
    if events.len() == 0 {
        init
    } else {
        events.last() == MouseButtonEvent::Pressed
    }
}

/// The position after one keyboard tick: for each held key, in the fixed
/// order Forward, Backward, Left, Right, one move is applied starting from
/// the position the previous one wrote.  Movements compose sequentially,
/// so diagonal movement is not normalized (kept for compatibility).
pub open spec fn spec_keyboard_positions(
    v: CameraView,
    pos: Vec3,
    c: CameraConfig,
    keys: KeysHeld,
    dt_ms: int,
) -> Vec3 {
    let p1 = if keys.forward {
        spec_keyboard_move(v, CameraMovement::Forward, pos, c, dt_ms)
    } else {
        pos
    };
    let p2 = if keys.backward {
        spec_keyboard_move(v, CameraMovement::Backward, p1, c, dt_ms)
    } else {
        p1
    };
    let p3 = if keys.left {
        spec_keyboard_move(v, CameraMovement::Left, p2, c, dt_ms)
    } else {
        p2
    };
    if keys.right {
        spec_keyboard_move(v, CameraMovement::Right, p3, c, dt_ms)
    } else {
        p3
    }
}

/// The view after feeding every queued motion delta, in order, into the
/// mouse-move mutation.
pub open spec fn spec_motion_fold(v: CameraView, deltas: Seq<MouseDelta>, c: CameraConfig) -> CameraView
    decreases deltas.len(),
{
    if deltas.len() == 0 {
        v
    } else {
        spec_mouse_move_view(
            spec_motion_fold(v, deltas.drop_last(), c),
            deltas.last().dx as int,
            deltas.last().dy as int,
            c,
        )
    }
}

/// The view after feeding every queued wheel delta, in order, into the
/// wheel mutation.
pub open spec fn spec_wheel_fold(v: CameraView, deltas: Seq<i64>) -> CameraView
    decreases deltas.len(),
{
    if deltas.len() == 0 {
        v
    } else {
        spec_mouse_wheel_view(spec_wheel_fold(v, deltas.drop_last()), deltas.last() as int)
    }
}

/// Wheel folding touches the zoom alone.
pub proof fn lemma_wheel_fold_only_zoom(v: CameraView, deltas: Seq<i64>)
    ensures
        spec_wheel_fold(v, deltas).yaw == v.yaw,
        spec_wheel_fold(v, deltas).pitch == v.pitch,
        spec_wheel_fold(v, deltas).front == v.front,
        spec_wheel_fold(v, deltas).right == v.right,
        spec_wheel_fold(v, deltas).up == v.up,
        spec_wheel_fold(v, deltas).world_up == v.world_up,
    decreases deltas.len(),
{
    if deltas.len() > 0 {
        lemma_wheel_fold_only_zoom(v, deltas.drop_last());
    }
}

/// The view after one whole tick of mouse input: the motion deltas apply
/// only if the button ends the button queue pressed, and the wheel deltas
/// always apply.
pub open spec fn spec_view_after_tick(
    v: CameraView,
    pressed_after: bool,
    motion: Seq<MouseDelta>,
    wheel: Seq<i64>,
    c: CameraConfig,
) -> CameraView {
    let v1 = if pressed_after {
        spec_motion_fold(v, motion, c)
    } else {
        v
    };
    spec_wheel_fold(v1, wheel)
}

/// The drag-to-look state machine: the left-button flag, transitioned by
/// the queued button events each tick.
#[derive(Clone, Copy, Debug, PartialEq, Eq, Structural)]
pub struct InputTranslator {
    pub left_button_pressed: bool,
}

impl Default for InputTranslator {
    /// Starts with the button released, so motion is ignored until a
    /// press arrives.
    fn default() -> (r: InputTranslator)
        ensures
            r == (InputTranslator { left_button_pressed: false }),
    {
        InputTranslator { left_button_pressed: false }
    }
}

/// Drains the button queue in arrival order into the drag state machine.
pub fn mouse_button_system(state: &mut InputTranslator, button_events: &Vec<MouseButtonEvent>)
    ensures
        final(state).left_button_pressed == spec_button_state_after(
            old(state).left_button_pressed,
            button_events@,
        ),
{
    let ghost init = state.left_button_pressed;
    let mut i: usize = 0;
    while i < button_events.len()
        invariant
            i <= button_events@.len(),
            state.left_button_pressed == spec_button_state_after(init, button_events@.take(i as int)),
        decreases button_events@.len() - i,
    {
        match button_events[i] {
            MouseButtonEvent::Pressed => {
                state.left_button_pressed = true;
            },
            MouseButtonEvent::Released => {
                state.left_button_pressed = false;
            },
        }
        proof {
            assert(button_events@.take(i as int + 1).last() == button_events@[i as int]);
        }
        i = i + 1;
    }
    proof {
        assert(button_events@.take(button_events@.len() as int) =~= button_events@);
    }
}

/// Applies one keyboard move per held key, each starting from the
/// position the previous one wrote, and marks the position dirty if any
/// key was held.
pub fn keyboard_motion_system(
    view: &CameraView,
    position: &mut CameraPosition,
    config: &CameraConfig,
    keys: KeysHeld,
    dt_ms: u64,
)
    requires
        view.wf(),
        config.wf(),
        dt_ms <= 1_000_000_000,
        -VELOCITY_LIMIT <= config.mov_speed * dt_ms <= VELOCITY_LIMIT,
        -POS_SOFT_LIMIT <= old(position).pos.x <= POS_SOFT_LIMIT,
        -POS_SOFT_LIMIT <= old(position).pos.y <= POS_SOFT_LIMIT,
        -POS_SOFT_LIMIT <= old(position).pos.z <= POS_SOFT_LIMIT,
    ensures
        final(position).pos == spec_keyboard_positions(
            *view,
            old(position).pos,
            *config,
            keys,
            dt_ms as int,
        ),
        final(position).in_range(),
        final(position).is_dirty == (old(position).is_dirty || keys.any()),
{
    if keys.forward {
        let np = view.process_keyboard(CameraMovement::Forward, position, config, dt_ms);
        position.set_pos(np);
    }
    if keys.backward {
        let np = view.process_keyboard(CameraMovement::Backward, position, config, dt_ms);
        position.set_pos(np);
    }
    if keys.left {
        let np = view.process_keyboard(CameraMovement::Left, position, config, dt_ms);
        position.set_pos(np);
    }
    if keys.right {
        let np = view.process_keyboard(CameraMovement::Right, position, config, dt_ms);
        position.set_pos(np);
    }
}

/// Drains the motion queue into the view, in order, only while the left
/// button is held; says whether the view was mutated.
pub fn mouse_motion_system(
    state: &InputTranslator,
    view: &mut CameraView,
    config: &CameraConfig,
    motion_events: &Vec<MouseDelta>,
) -> (changed: bool)
    requires
        old(view).wf(),
        config.wf(),
        forall|i: int|
            0 <= i < motion_events@.len() ==> {
                &&& -DELTA_LIMIT <= #[trigger] motion_events@[i].dx <= DELTA_LIMIT
                &&& -DELTA_LIMIT <= motion_events@[i].dy <= DELTA_LIMIT
            },
    ensures
        state.left_button_pressed ==> *final(view) == spec_motion_fold(
            *old(view),
            motion_events@,
            *config,
        ),
        !state.left_button_pressed ==> *final(view) == *old(view),
        final(view).wf(),
        changed == (state.left_button_pressed && motion_events@.len() > 0),
{
    if !state.left_button_pressed {
        return false;
    }
    let ghost v0 = *view;
    let mut i: usize = 0;
    while i < motion_events.len()
        invariant
            i <= motion_events@.len(),
            view.wf(),
            config.wf(),
            *view == spec_motion_fold(v0, motion_events@.take(i as int), *config),
            forall|j: int|
                0 <= j < motion_events@.len() ==> {
                    &&& -DELTA_LIMIT <= #[trigger] motion_events@[j].dx <= DELTA_LIMIT
                    &&& -DELTA_LIMIT <= motion_events@[j].dy <= DELTA_LIMIT
                },
        decreases motion_events@.len() - i,
    {
        let e = motion_events[i];
        view.process_mouse_move(e.dx, e.dy, config);
        proof {
            assert(motion_events@.take(i as int + 1).drop_last() =~= motion_events@.take(i as int));
            assert(motion_events@.take(i as int + 1).last() == motion_events@[i as int]);
        }
        i = i + 1;
    }
    proof {
        assert(motion_events@.take(motion_events@.len() as int) =~= motion_events@);
    }
    motion_events.len() > 0
}

/// Drains the wheel queue into the zoom, in order; says whether the view
/// was mutated.
pub fn mouse_wheel_system(view: &mut CameraView, wheel_events: &Vec<i64>) -> (changed: bool)
    requires
        old(view).wf(),
        forall|i: int|
            0 <= i < wheel_events@.len() ==> -DELTA_LIMIT <= #[trigger] wheel_events@[i]
                <= DELTA_LIMIT,
    ensures
        *final(view) == spec_wheel_fold(*old(view), wheel_events@),
        final(view).wf(),
        changed == (wheel_events@.len() > 0),
{
    let ghost v0 = *view;
    let mut i: usize = 0;
    while i < wheel_events.len()
        invariant
            i <= wheel_events@.len(),
            view.wf(),
            *view == spec_wheel_fold(v0, wheel_events@.take(i as int)),
            forall|j: int|
                0 <= j < wheel_events@.len() ==> -DELTA_LIMIT <= #[trigger] wheel_events@[j]
                    <= DELTA_LIMIT,
        decreases wheel_events@.len() - i,
    {
        let dy = wheel_events[i];
        view.process_mouse_wheel(dy);
        proof {
            assert(wheel_events@.take(i as int + 1).drop_last() =~= wheel_events@.take(i as int));
            assert(wheel_events@.take(i as int + 1).last() == wheel_events@[i as int]);
        }
        i = i + 1;
    }
    proof {
        assert(wheel_events@.take(wheel_events@.len() as int) =~= wheel_events@);
    }
    wheel_events.len() > 0
}

impl InputTranslator {
    /// Runs one tick of input translation, in the fixed order: button
    /// events, keyboard movement, gated mouse motion, wheel.  Says whether
    /// the view was mutated.
    pub fn translate(
        &mut self,
        view: &mut CameraView,
        position: &mut CameraPosition,
        config: &CameraConfig,
        input: &TickInput,
    ) -> (view_changed: bool)
        requires
            old(view).wf(),
            config.wf(),
            input.bounded(*config),
            -POS_SOFT_LIMIT <= old(position).pos.x <= POS_SOFT_LIMIT,
            -POS_SOFT_LIMIT <= old(position).pos.y <= POS_SOFT_LIMIT,
            -POS_SOFT_LIMIT <= old(position).pos.z <= POS_SOFT_LIMIT,
        ensures
            final(self).left_button_pressed == spec_button_state_after(
                old(self).left_button_pressed,
                input.button_events@,
            ),
            final(position).pos == spec_keyboard_positions(
                *old(view),
                old(position).pos,
                *config,
                input.keys,
                input.dt_ms as int,
            ),
            final(position).in_range(),
            final(position).is_dirty == (old(position).is_dirty || input.keys.any()),
            *final(view) == spec_view_after_tick(
                *old(view),
                final(self).left_button_pressed,
                input.motion_events@,
                input.wheel_events@,
                *config,
            ),
            final(view).wf(),
            view_changed == ((final(self).left_button_pressed && input.motion_events@.len() > 0)
                || input.wheel_events@.len() > 0),
    {
        mouse_button_system(self, &input.button_events);
        keyboard_motion_system(view, position, config, input.keys, input.dt_ms);
        let motion_changed = mouse_motion_system(&*self, view, config, &input.motion_events);
        let wheel_changed = mouse_wheel_system(view, &input.wheel_events);
        motion_changed || wheel_changed
    }
}

} // verus!
