//! World-space camera position.

use vstd::prelude::*;
use crate::fixed::FX_ONE;
use crate::vec3::{Vec3, spec_plus, spec_minus};

verus! {

/// The widest coordinate magnitude at which the view matrix is still
/// computed; roughly four million units from the origin.
pub const POS_LIMIT: i64 = 4_000_000_000_000;

/// A direction of camera movement, as selected by one of the four
/// movement keys.
#[derive(Clone, Copy, Debug, PartialEq, Eq, Structural)]
pub enum CameraMovement {
    Forward,
    Backward,
    Left,
    Right,
}

/// World-space position of the camera, with the dirty flag that marks it
/// changed since the view matrix was last recomputed.
#[derive(Clone, Copy, Debug, PartialEq, Eq, Structural)]
pub struct CameraPosition {
    pub pos: Vec3,
    pub is_dirty: bool,
}

impl CameraPosition {
    /// Every coordinate is within the range the view-matrix arithmetic
    /// admits.
    pub open spec fn in_range(self) -> bool {
        &&& -POS_LIMIT <= self.pos.x <= POS_LIMIT
        &&& -POS_LIMIT <= self.pos.y <= POS_LIMIT
        &&& -POS_LIMIT <= self.pos.z <= POS_LIMIT
    }

    pub fn new(pos: Vec3) -> (r: CameraPosition)
        ensures
            r == (CameraPosition { pos, is_dirty: true }),
    {
        CameraPosition { pos, is_dirty: true }
    }

    /// Moves the position by `delta` and marks it dirty.
    pub fn inc_pos(&mut self, delta: Vec3)
        requires
            i64::MIN <= old(self).pos.x + delta.x <= i64::MAX,
            i64::MIN <= old(self).pos.y + delta.y <= i64::MAX,
            i64::MIN <= old(self).pos.z + delta.z <= i64::MAX,
        ensures
            final(self).pos == spec_plus(old(self).pos, delta),
            final(self).is_dirty,
    {
        self.pos = self.pos.plus(delta);
        self.is_dirty = true;
    }

    /// Moves the position by `-delta` and marks it dirty.
    pub fn dec_pos(&mut self, delta: Vec3)
        requires
            i64::MIN <= old(self).pos.x - delta.x <= i64::MAX,
            i64::MIN <= old(self).pos.y - delta.y <= i64::MAX,
            i64::MIN <= old(self).pos.z - delta.z <= i64::MAX,
        ensures
            final(self).pos == spec_minus(old(self).pos, delta),
            final(self).is_dirty,
    {
        self.pos = self.pos.minus(delta);
        self.is_dirty = true;
    }

    /// Overwrites the position and marks it dirty.
    pub fn set_pos(&mut self, pos: Vec3)
        ensures
            final(self).pos == pos,
            final(self).is_dirty,
    {
        self.pos = pos;
        self.is_dirty = true;
    }

    /// Read accessor.
    pub fn pos(&self) -> (r: Vec3)
        ensures
            r == self.pos,
    {
        self.pos
    }
}

impl Default for CameraPosition {
    /// Three units back from the origin, marked dirty so the first tick
    /// computes a view matrix.
    fn default() -> (r: CameraPosition)
        ensures
            r == (CameraPosition {
                pos: Vec3 { x: 0i64, y: 0i64, z: (3 * FX_ONE) as i64 },
                is_dirty: true,
            }),
            r.in_range(),
    {
        CameraPosition { pos: Vec3 { x: 0, y: 0, z: 3 * FX_ONE }, is_dirty: true }
    }
}

} // verus!
