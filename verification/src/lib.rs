//! A frame-rate-independent free-look camera controller.
//!
//! The controller turns per-tick keyboard / mouse input into a continuously
//! updated view transform with clamped orientation and zoom.  All state is
//! kept in fixed-point arithmetic (see [`fixed`]): a scalar is an `i64`
//! holding the value in millionths, so `1_000_000` stands for `1.0`.
//!
//! Per tick, in fixed order: the [`input`] translator drains the event
//! queues into the [`camera_position`] and [`camera_view`] state, the
//! [`updater`] recomputes the view matrix exactly once when either changed,
//! and the optional [`camera_info`] reporter emits periodic diagnostics.
//! [`camera`] composes the stages; [`laws`] states and proves the
//! controller-wide guarantees.

pub mod camera;
pub mod camera_config;
pub mod camera_info;
pub mod camera_position;
pub mod camera_view;
pub mod fixed;
pub mod input;
pub mod laws;
pub mod mat4;
pub mod trig;
pub mod updater;
pub mod vec3;
