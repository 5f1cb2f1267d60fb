//! Three-component vectors over fixed-point scalars.
//!
//! `Vector` is the executable type; its mathematical image is `V3`, a triple
//! of raw integer values, and every operation is pinned to a `v3_*` spec
//! function over that image.

use vstd::prelude::*;

use crate::fixed::{fx_add, fx_div, fx_mul, fx_neg, fx_sqrt, fx_sub, Fx};

verus! {

/// The mathematical image of a `Vector`: its raw components as integers.
pub struct V3 {
    pub x: int,
    pub y: int,
    pub z: int,
}

pub open spec fn v3_add(a: V3, b: V3) -> V3 {
    V3 { x: fx_add(a.x, b.x), y: fx_add(a.y, b.y), z: fx_add(a.z, b.z) }
}

pub open spec fn v3_sub(a: V3, b: V3) -> V3 {
    V3 { x: fx_sub(a.x, b.x), y: fx_sub(a.y, b.y), z: fx_sub(a.z, b.z) }
}

pub open spec fn v3_neg(a: V3) -> V3 {
    V3 { x: fx_neg(a.x), y: fx_neg(a.y), z: fx_neg(a.z) }
}

/// Componentwise scaling by a fixed-point scalar.
pub open spec fn v3_scale(a: V3, t: int) -> V3 {
    V3 { x: fx_mul(a.x, t), y: fx_mul(a.y, t), z: fx_mul(a.z, t) }
}

/// Componentwise division by a fixed-point scalar.
pub open spec fn v3_div(a: V3, t: int) -> V3 {
    V3 { x: fx_div(a.x, t), y: fx_div(a.y, t), z: fx_div(a.z, t) }
}

pub open spec fn v3_dot(a: V3, b: V3) -> int {
    fx_add(fx_add(fx_mul(a.x, b.x), fx_mul(a.y, b.y)), fx_mul(a.z, b.z))
}

pub open spec fn v3_cross(a: V3, b: V3) -> V3 {
    V3 {
        x: fx_sub(fx_mul(a.y, b.z), fx_mul(a.z, b.y)),
        y: fx_sub(fx_mul(a.z, b.x), fx_mul(a.x, b.z)),
        z: fx_sub(fx_mul(a.x, b.y), fx_mul(a.y, b.x)),
    }
}

pub open spec fn v3_norm_sqr(a: V3) -> int {
    v3_dot(a, a)
}

pub open spec fn v3_norm(a: V3) -> int {
    fx_sqrt(v3_norm_sqr(a))
}

/// Normalization: each component divided by the norm.  A zero norm divides
/// to zero, so the degenerate vector normalizes to the zero vector.
pub open spec fn v3_hat(a: V3) -> V3 {
    v3_div(a, v3_norm(a))
}

/// A fixed-point square is never negative.
pub proof fn lemma_fx_square_nonneg(x: int)
    ensures
        fx_mul(x, x) >= 0,
{
    assert(x * x >= 0) by (nonlinear_arith);
    crate::fixed::lemma_tdiv_sign(x * x, crate::fixed::SCALE as int);
}

/// A vector's dot product with itself is never negative.
pub proof fn lemma_v3_dot_self_nonneg(v: V3)
    ensures
        v3_dot(v, v) >= 0,
{
    lemma_fx_square_nonneg(v.x);
    lemma_fx_square_nonneg(v.y);
    lemma_fx_square_nonneg(v.z);
}

/// Every component within [0, 1] — the range of a color-carrying vector.
pub open spec fn v3_in_unit(v: V3) -> bool {
    &&& 0 <= v.x <= crate::fixed::SCALE as int
    &&& 0 <= v.y <= crate::fixed::SCALE as int
    &&& 0 <= v.z <= crate::fixed::SCALE as int
}

/// A vector in 3-space.
#[derive(Clone, Copy, Debug, PartialEq, Eq, Structural)]
pub struct Vector {
    pub x: Fx,
    pub y: Fx,
    pub z: Fx,
}

impl Vector {
    pub open spec fn view(self) -> V3 {
        V3 { x: self.x.raw as int, y: self.y.raw as int, z: self.z.raw as int }
    }

    pub fn new(x: Fx, y: Fx, z: Fx) -> (v: Vector)
        ensures
            v == (Vector { x, y, z }),
    {
        Vector { x, y, z }
    }

    pub fn zero() -> (v: Vector)
        ensures
            v@ == (V3 { x: 0, y: 0, z: 0 }),
    {
        Vector { x: Fx::zero(), y: Fx::zero(), z: Fx::zero() }
    }

    pub fn add(self, rhs: Vector) -> (v: Vector)
        ensures
            v@ == v3_add(self@, rhs@),
    {
        Vector { x: self.x.add(rhs.x), y: self.y.add(rhs.y), z: self.z.add(rhs.z) }
    }

    pub fn sub(self, rhs: Vector) -> (v: Vector)
        ensures
            v@ == v3_sub(self@, rhs@),
    {
        Vector { x: self.x.sub(rhs.x), y: self.y.sub(rhs.y), z: self.z.sub(rhs.z) }
    }

    pub fn neg(self) -> (v: Vector)
        ensures
            v@ == v3_neg(self@),
    {
        Vector { x: self.x.neg(), y: self.y.neg(), z: self.z.neg() }
    }

    /// Scale by a fixed-point scalar.
    pub fn mul(self, t: Fx) -> (v: Vector)
        ensures
            v@ == v3_scale(self@, t.raw as int),
    {
        Vector { x: self.x.mul(t), y: self.y.mul(t), z: self.z.mul(t) }
    }

    /// Divide by a fixed-point scalar.
    pub fn div(self, t: Fx) -> (v: Vector)
        ensures
            v@ == v3_div(self@, t.raw as int),
    {
        Vector { x: self.x.div(t), y: self.y.div(t), z: self.z.div(t) }
    }

    pub fn dot(self, rhs: Vector) -> (r: Fx)
        ensures
            r.raw == v3_dot(self@, rhs@),
    {
        self.x.mul(rhs.x).add(self.y.mul(rhs.y)).add(self.z.mul(rhs.z))
    }

    pub fn cross(self, rhs: Vector) -> (v: Vector)
        ensures
            v@ == v3_cross(self@, rhs@),
    {
        Vector {
            x: self.y.mul(rhs.z).sub(self.z.mul(rhs.y)),
            y: self.z.mul(rhs.x).sub(self.x.mul(rhs.z)),
            z: self.x.mul(rhs.y).sub(self.y.mul(rhs.x)),
        }
    }

    pub fn norm_sqr(&self) -> (r: Fx)
        ensures
            r.raw == v3_norm_sqr(self@),
    {
        self.dot(*self)
    }

    pub fn norm(&self) -> (r: Fx)
        ensures
            r.raw == v3_norm(self@),
    {
        self.norm_sqr().sqrt()
    }

    /// The unit vector in this direction (the zero vector for a vector whose
    /// fixed-point norm is zero).
    pub fn hat(&self) -> (v: Vector)
        ensures
            v@ == v3_hat(self@),
    {
        let n = self.norm();
        Vector { x: self.x.div(n), y: self.y.div(n), z: self.z.div(n) }
    }
}

} // verus!
