//! Static camera tunables.

use vstd::prelude::*;

verus! {

/// Movement speed and mouse sensitivity admit this magnitude at most; the
/// bound keeps every fixed-point product of the controller inside an `i64`.
pub const TUNABLE_LIMIT: i64 = 1_000_000_000;

/// Static per-camera tunables, set at creation and never changed.
///
/// `mov_speed` is in units per millisecond and `mouse_sensitivity` in
/// degrees per pixel, both fixed-point (millionths).  Zero or negative
/// values are not rejected: they give a stationary or inverted-feeling
/// camera, which is the caller's responsibility.
#[derive(Clone, Copy, Debug, PartialEq, Eq, Structural)]
pub struct CameraConfig {
    pub mov_speed: i64,
    pub mouse_sensitivity: i64,
    pub constrain_pitch: bool,
}

impl CameraConfig {
    /// Both tunables are within the magnitude the arithmetic admits.
    pub open spec fn wf(self) -> bool {
        &&& -TUNABLE_LIMIT <= self.mov_speed <= TUNABLE_LIMIT
        &&& -TUNABLE_LIMIT <= self.mouse_sensitivity <= TUNABLE_LIMIT
    }
}

impl Default for CameraConfig {
    /// A speed of `0.01` units per millisecond, a sensitivity of `0.1`
    /// degrees per pixel, and pitch constrained to `[-89, 89]` degrees.
    fn default() -> (r: CameraConfig)
        ensures
            r == (CameraConfig {
                mov_speed: 10_000i64,
                mouse_sensitivity: 100_000i64,
                constrain_pitch: true,
            }),
            r.wf(),
    {
        CameraConfig { mov_speed: 10_000, mouse_sensitivity: 100_000, constrain_pitch: true }
    }
}

} // verus!
