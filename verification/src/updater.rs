//! The reactive view-matrix stage.
//!
//! Change detection is by two explicit dirty flags — one on the position,
//! one for the view — set by the input translator and cleared here after a
//! single combined recompute.  This replaces per-field change filters,
//! which recompute stalely or twice depending on which field's filter
//! fires; with the flags the transform is rebuilt from the freshest value
//! of both inputs exactly once per tick when either changed.

use vstd::prelude::*;
use crate::camera_position::CameraPosition;
use crate::camera_view::{CameraView, spec_get_view};
use crate::mat4::Mat4;

verus! {

/// Recomputes the camera transform when an upstream value changed; counts
/// its recomputes so the once-per-tick guarantee is observable.
#[derive(Clone, Copy, Debug, PartialEq, Eq, Structural)]
pub struct ViewMatrixUpdater {
    pub recompute_count: u64,
}

impl Default for ViewMatrixUpdater {
    fn default() -> (r: ViewMatrixUpdater)
        ensures
            r == (ViewMatrixUpdater { recompute_count: 0u64 }),
    {
        ViewMatrixUpdater { recompute_count: 0 }
    }
}

impl ViewMatrixUpdater {
    /// When either the position or the view changed this tick, overwrites
    /// the transform from the current value of both — exactly once — and
    /// clears both dirty flags; otherwise leaves everything alone.
    pub fn run(
        &mut self,
        view: &CameraView,
        view_dirty: &mut bool,
        position: &mut CameraPosition,
        transform: &mut Mat4,
    )
        requires
            view.wf(),
            old(position).in_range(),
            old(self).recompute_count < u64::MAX,
        ensures
            final(position).pos == old(position).pos,
            old(position).is_dirty || *old(view_dirty) ==> {
                &&& *final(transform) == spec_get_view(*view, old(position).pos)
                &&& final(self).recompute_count == old(self).recompute_count + 1
                &&& !final(position).is_dirty
                &&& !*final(view_dirty)
            },
            !(old(position).is_dirty || *old(view_dirty)) ==> {
                &&& *final(transform) == *old(transform)
                &&& final(self).recompute_count == old(self).recompute_count
                &&& final(position).is_dirty == old(position).is_dirty
                &&& *final(view_dirty) == *old(view_dirty)
            },
    {
        if position.is_dirty || *view_dirty {
            *transform = view.get_view(position);
            self.recompute_count = self.recompute_count + 1;
            position.is_dirty = false;
            *view_dirty = false;
        }
    }
}

} // verus!
