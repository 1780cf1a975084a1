//! Periodic camera diagnostics, decoupled from control.
//!
//! The reporter accumulates elapsed time and frames; once the accumulated
//! time reaches the configured interval it yields one report — position,
//! pitch, yaw, and the average frame rate since the last report — and
//! resets both accumulators.  Rendering the report as text and writing it
//! out is the host's business.

use vstd::prelude::*;
use vstd::arithmetic::div_mod::lemma_basic_div;
use crate::camera_position::CameraPosition;
use crate::camera_view::CameraView;
use crate::vec3::Vec3;

verus! {

/// Where a report goes.  Window-title output is not implemented; the host
/// must say so instead of silently doing nothing.
#[derive(Clone, Copy, Debug, PartialEq, Eq, Structural)]
pub enum CameraInfoOutput {
    WindowTitle,
    Console,
}

/// How often to report, and where to.
#[derive(Clone, Copy, Debug, PartialEq, Eq, Structural)]
pub struct CameraInfoConfig {
    pub interval_millis: u64,
    pub output: CameraInfoOutput,
}

impl Default for CameraInfoConfig {
    /// One report per second, to the console.
    fn default() -> (r: CameraInfoConfig)
        ensures
            r == (CameraInfoConfig { interval_millis: 1000u64, output: CameraInfoOutput::Console }),
    {
        CameraInfoConfig { interval_millis: 1000, output: CameraInfoOutput::Console }
    }
}

/// Elapsed time and frames since the last report.
#[derive(Clone, Copy, Debug, PartialEq, Eq, Structural)]
pub struct CameraInfoState {
    pub millis_since_last_update: u64,
    pub frames_since_last_update: u64,
}

impl Default for CameraInfoState {
    fn default() -> (r: CameraInfoState)
        ensures
            r == (CameraInfoState { millis_since_last_update: 0u64, frames_since_last_update: 0u64 }),
    {
        CameraInfoState { millis_since_last_update: 0, frames_since_last_update: 0 }
    }
}

/// One diagnostic report: the camera position and orientation, and the
/// average frame rate since the last report.  `fps` is `None` when the
/// average frame time was below one millisecond, where the rate exceeds
/// any bound.
#[derive(Clone, Copy, Debug, PartialEq, Eq)]
pub struct CameraInfo {
    pub pos: Vec3,
    pub pitch: i64,
    pub yaw: i64,
    pub fps: Option<u64>,
}

/// The frame rate, rounded to the nearest integer: `1000 / d` with
/// `d = millis / frames` the truncated average frame time, `None` when
/// `d` is zero.
pub open spec fn spec_fps(millis: int, frames: int) -> Option<u64> {
    let d = millis / frames;
    if d == 0 {
        None
    } else {
        Some(((2000 + d) / (2 * d)) as u64)
    }
}

/// The diagnostic stage: its configuration and its accumulators.
#[derive(Clone, Copy, Debug, PartialEq, Eq, Structural)]
pub struct CameraInfoReporter {
    pub config: CameraInfoConfig,
    pub state: CameraInfoState,
}

impl CameraInfoReporter {
    /// A reporter with zeroed accumulators.
    pub fn new(config: CameraInfoConfig) -> (r: CameraInfoReporter)
        ensures
            r.config == config,
            r.state == (CameraInfoState {
                millis_since_last_update: 0u64,
                frames_since_last_update: 0u64,
            }),
    {
        CameraInfoReporter {
            config,
            state: CameraInfoState { millis_since_last_update: 0, frames_since_last_update: 0 },
        }
    }

    /// The accumulated time has reached the interval, so a report is due.
    pub open spec fn due(self) -> bool {
        self.state.millis_since_last_update >= self.config.interval_millis
    }

    /// Accumulates one tick: the elapsed time and one frame.
    pub fn on_tick(&mut self, dt_ms: u64)
        requires
            old(self).state.millis_since_last_update + dt_ms <= u64::MAX,
            old(self).state.frames_since_last_update < u64::MAX,
        ensures
            final(self).state.millis_since_last_update == old(
                self,
            ).state.millis_since_last_update + dt_ms,
            final(self).state.frames_since_last_update == old(
                self,
            ).state.frames_since_last_update + 1,
            final(self).config == old(self).config,
    {
        self.state.millis_since_last_update = self.state.millis_since_last_update + dt_ms;
        self.state.frames_since_last_update = self.state.frames_since_last_update + 1;
    }

    /// When a report is due, yields it — computed from the current position
    /// and view — and resets both accumulators immediately; otherwise
    /// yields nothing and changes nothing.
    pub fn take_report(&mut self, view: &CameraView, position: &CameraPosition) -> (r: Option<
        CameraInfo,
    >)
        requires
            old(self).due() ==> old(self).state.frames_since_last_update >= 1,
        ensures
            old(self).due() ==> {
                &&& r == Some(CameraInfo {
                    pos: position.pos,
                    pitch: view.pitch,
                    yaw: view.yaw,
                    fps: spec_fps(
                        old(self).state.millis_since_last_update as int,
                        old(self).state.frames_since_last_update as int,
                    ),
                })
                &&& final(self).state.millis_since_last_update == 0
                &&& final(self).state.frames_since_last_update == 0
            },
            !old(self).due() ==> r is None && *final(self) == *old(self),
            final(self).config == old(self).config,
    {
        if self.state.millis_since_last_update < self.config.interval_millis {
            return None;
        }
        let d: u64 = self.state.millis_since_last_update / self.state.frames_since_last_update;
        let fps: Option<u64> = if d == 0 {
            None
        } else if d > 2000 {
            proof {
                lemma_basic_div(2000 + d as int, 2 * d as int);
            }
            Some(0)
        } else {
            Some((2000 + d) / (2 * d))
        };
        let report = CameraInfo {
            pos: position.pos(),
            pitch: view.pitch,
            yaw: view.yaw,
            fps,
        };
        self.state.millis_since_last_update = 0;
        self.state.frames_since_last_update = 0;
        Some(report)
    }
}

} // verus!
