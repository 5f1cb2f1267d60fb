//! Random sampling.
//!
//! All randomness in the crate flows through `rand_unit`, a single trusted
//! wrapper around the `rand` crate; everything built on it is verified
//! against the wrapper's range contract alone, so the guarantees hold
//! whatever the generator returns.
//!
//! Rejection sampling is bounded: after `SAMPLE_TRIES` draws that fall
//! outside the target shape, the center of the shape is returned.  (The
//! chance of even one rejection is below one half per draw, so the fallback
//! is astronomically rare; it makes termination unconditional.)

use vstd::prelude::*;

use crate::fixed::{Fx, SCALE};
use crate::vector::{v3_norm_sqr, Vector, V3};

verus! {

#[verifier::external_type_specification]
#[verifier::external_body]
pub struct ExThreadRng(rand::rngs::ThreadRng);

/// Attempts at rejection sampling before falling back to the shape's center.
pub const SAMPLE_TRIES: u32 = 64;

/// Relies on rand's `RngExt::random_range`: a uniform draw from a nonempty
/// integer range lies in that range.  Nothing more is assumed of the value.
#[verifier::external_body]
pub(crate) fn rand_unit(rng: &mut rand::rngs::ThreadRng) -> (r: i64)
    ensures
        0 <= r < SCALE,
{
    rand::RngExt::random_range(rng, 0..SCALE)
}

/// A vector inside the unit ball (components within [-1, 1], squared
/// fixed-point norm below one).
pub open spec fn in_unit_ball(v: V3) -> bool {
    &&& v3_norm_sqr(v) < SCALE as int
    &&& -(SCALE as int) <= v.x <= SCALE as int
    &&& -(SCALE as int) <= v.y <= SCALE as int
    &&& -(SCALE as int) <= v.z <= SCALE as int
}

/// A vector inside the unit disk of the xy-plane.
pub open spec fn in_unit_disk(v: V3) -> bool {
    in_unit_ball(v) && v.z == 0
}

/// One coordinate drawn uniformly from [-1, 1).
fn sample_component(rng: &mut rand::rngs::ThreadRng) -> (r: Fx)
    ensures
        -(SCALE as int) <= r.raw < SCALE as int,
{
    let u = rand_unit(rng);
    Fx::from_raw(2 * u - SCALE)
}

/// A uniform sample inside the unit ball, by bounded rejection sampling.
pub fn random_in_unit_sphere(rng: &mut rand::rngs::ThreadRng) -> (v: Vector)
    ensures
        in_unit_ball(v@),
{
    let mut tries: u32 = 0;
    while tries < SAMPLE_TRIES
        decreases SAMPLE_TRIES - tries,
    {
        let p = Vector {
            x: sample_component(rng),
            y: sample_component(rng),
            z: sample_component(rng),
        };
        if p.norm_sqr().raw < SCALE {
            return p;
        }
        tries = tries + 1;
    }
    Vector::zero()
}

/// A uniform sample inside the unit disk of the xy-plane, by bounded
/// rejection sampling.
pub fn random_in_unit_disk(rng: &mut rand::rngs::ThreadRng) -> (v: Vector)
    ensures
        in_unit_disk(v@),
{
    let mut tries: u32 = 0;
    while tries < SAMPLE_TRIES
        decreases SAMPLE_TRIES - tries,
    {
        let p = Vector {
            x: sample_component(rng),
            y: sample_component(rng),
            z: Fx::zero(),
        };
        if p.norm_sqr().raw < SCALE {
            return p;
        }
        tries = tries + 1;
    }
    Vector::zero()
}

} // verus!
