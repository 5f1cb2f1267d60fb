//! A small Monte-Carlo ray tracer over fixed-point arithmetic.
//!
//! The tracing engine — camera ray generation, ray/primitive intersection,
//! material scattering and the recursive radiance function — is written over
//! the saturating fixed-point scalars of [`fixed`], so every step of the
//! computation has an exact, machine-checked contract.  Scene assembly and
//! image serialization are left to callers.

pub mod camera;
pub mod color;
pub mod fixed;
pub mod orthographic;
pub mod materials;
pub mod models;
pub mod point;
pub mod ray;
pub mod sampling;
pub mod scene;
pub mod vector;
