//! Rays: origin plus scaled direction.

use vstd::prelude::*;

use crate::fixed::Fx;
use crate::point::Point;
use crate::vector::{v3_add, v3_scale, Vector, V3};

verus! {

/// A half-line `origin + t * direction`.  The direction is not required to
/// be normalized; consumers normalize locally where they need to.
#[derive(Clone, Copy, Debug, PartialEq, Eq, Structural)]
pub struct Ray {
    pub origin: Point,
    pub direction: Vector,
}

/// The point a ray reaches at parameter `t` (raw fixed-point value).
pub open spec fn ray_at(r: Ray, t: int) -> V3 {
    v3_add(r.origin@, v3_scale(r.direction@, t))
}

impl Ray {
    pub fn new(origin: Point, direction: Vector) -> (r: Ray)
        ensures
            r == (Ray { origin, direction }),
    {
        Ray { origin, direction }
    }

    pub fn at(&self, t: Fx) -> (p: Point)
        ensures
            p@ == ray_at(*self, t.raw as int),
    {
        self.origin.add(self.direction.mul(t))
    }
}

} // verus!
