//! The camera: position, forward direction and camera plane.

use vstd::prelude::*;
use crate::FP_ONE;
use crate::ray::POS_LIMIT;
use crate::vec2::ROT_LIMIT;
use crate::vec2::Vector2;
use crate::vec2::spec_rot_x;
use crate::vec2::spec_rot_y;

verus! {

/// Largest direction or plane component magnitude the renderer accepts.
pub const DIR_LIMIT: i64 = 0x4000_0000;

/// Default camera plane length, about 0.66 in fixed point, for a field of
/// view of roughly 66 degrees against the unit forward direction.
pub const FOV_PLANE: i64 = 43254;

/// The camera.  `dir` is the forward direction, `plane` the camera plane;
/// keeping them perpendicular is what `rotate` is for, by turning both
/// with the same rotor.
pub struct Player {
    /// Position in fixed-point world coordinates (one tile = `FP_ONE`).
    pub pos: Vector2,
    /// Forward direction, unit length by default.
    pub dir: Vector2,
    /// Camera plane, perpendicular to `dir`; its length sets the field of
    /// view.
    pub plane: Vector2,
}

impl Player {
    /// Bounds under which every renderer computation fits in 64 bits.
    pub open spec fn wf(self) -> bool {
        &&& -POS_LIMIT <= self.pos.x <= POS_LIMIT
        &&& -POS_LIMIT <= self.pos.y <= POS_LIMIT
        &&& -DIR_LIMIT <= self.dir.x <= DIR_LIMIT
        &&& -DIR_LIMIT <= self.dir.y <= DIR_LIMIT
        &&& -DIR_LIMIT <= self.plane.x <= DIR_LIMIT
        &&& -DIR_LIMIT <= self.plane.y <= DIR_LIMIT
    }

    /// A camera at `(x, y)` facing north (negative y) with the default
    /// field of view.
    pub fn new(x: i64, y: i64) -> (p: Player)
        requires
            -POS_LIMIT <= x <= POS_LIMIT,
            -POS_LIMIT <= y <= POS_LIMIT,
        ensures
            p.pos.x == x,
            p.pos.y == y,
            p.dir.x == 0,
            p.dir.y == -FP_ONE,
            p.plane.x == FOV_PLANE,
            p.plane.y == 0,
            p.wf(),
    {
        Player {
            pos: Vector2::new(x, y),
            dir: Vector2::new(0, -FP_ONE),
            plane: Vector2::new(FOV_PLANE, 0),
        }
    }

    /// Rotates the forward direction and the camera plane together by the
    /// rotor `(c, s)` (fixed-point cosine and sine), so that the pair
    /// cannot drift apart through partial updates.
    pub fn rotate(&mut self, c: i64, s: i64)
        requires
            old(self).wf(),
            -ROT_LIMIT <= old(self).dir.x <= ROT_LIMIT,
            -ROT_LIMIT <= old(self).dir.y <= ROT_LIMIT,
            -ROT_LIMIT <= old(self).plane.x <= ROT_LIMIT,
            -ROT_LIMIT <= old(self).plane.y <= ROT_LIMIT,
            -FP_ONE <= c <= FP_ONE,
            -FP_ONE <= s <= FP_ONE,
        ensures
            final(self).pos == old(self).pos,
            final(self).dir.x == spec_rot_x(
                old(self).dir.x as int,
                old(self).dir.y as int,
                c as int,
                s as int,
            ) / (FP_ONE as int),
            final(self).dir.y == spec_rot_y(
                old(self).dir.x as int,
                old(self).dir.y as int,
                c as int,
                s as int,
            ) / (FP_ONE as int),
            final(self).plane.x == spec_rot_x(
                old(self).plane.x as int,
                old(self).plane.y as int,
                c as int,
                s as int,
            ) / (FP_ONE as int),
            final(self).plane.y == spec_rot_y(
                old(self).plane.x as int,
                old(self).plane.y as int,
                c as int,
                s as int,
            ) / (FP_ONE as int),
            final(self).wf(),
    {
        self.dir.rotate_mut(c, s);
        self.plane.rotate_mut(c, s);
    }
}

} // verus!
