//! Points in 3-space.
//!
//! A `Point` is distinguished from a `Vector` by its affine role: the
//! difference of two points is a vector, and a point plus or minus a vector
//! is a point.  Its mathematical image is the same `V3` of raw components.

use vstd::prelude::*;

use crate::fixed::Fx;
use crate::vector::{v3_add, v3_sub, Vector, V3};

verus! {

/// A point in 3-space.
#[derive(Clone, Copy, Debug, PartialEq, Eq, Structural)]
pub struct Point {
    pub x: Fx,
    pub y: Fx,
    pub z: Fx,
}

impl Point {
    pub open spec fn view(self) -> V3 {
        V3 { x: self.x.raw as int, y: self.y.raw as int, z: self.z.raw as int }
    }

    pub fn new(x: Fx, y: Fx, z: Fx) -> (p: Point)
        ensures
            p == (Point { x, y, z }),
    {
        Point { x, y, z }
    }

    pub fn origin() -> (p: Point)
        ensures
            p@ == (V3 { x: 0, y: 0, z: 0 }),
    {
        Point { x: Fx::zero(), y: Fx::zero(), z: Fx::zero() }
    }

    /// Point plus vector is a point.
    pub fn add(self, rhs: Vector) -> (p: Point)
        ensures
            p@ == v3_add(self@, rhs@),
    {
        Point { x: self.x.add(rhs.x), y: self.y.add(rhs.y), z: self.z.add(rhs.z) }
    }

    /// Point minus point is a vector.
    pub fn sub(self, rhs: Point) -> (v: Vector)
        ensures
            v@ == v3_sub(self@, rhs@),
    {
        Vector { x: self.x.sub(rhs.x), y: self.y.sub(rhs.y), z: self.z.sub(rhs.z) }
    }

    /// Point minus vector is a point.
    pub fn sub_vector(self, rhs: Vector) -> (p: Point)
        ensures
            p@ == v3_sub(self@, rhs@),
    {
        Point { x: self.x.sub(rhs.x), y: self.y.sub(rhs.y), z: self.z.sub(rhs.z) }
    }
}

} // verus!
