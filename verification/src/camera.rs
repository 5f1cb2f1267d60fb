//! Cameras: perspective (with depth of field), pinhole, and orthographic.
//!
//! Each camera precomputes an immutable basis at construction; ray
//! generation is a pure function of that basis, the pixel coordinates and
//! the explicit per-call samples (a lens-disk sample, a pixel jitter).  The
//! functions that draw those samples themselves are thin wrappers, so the
//! deterministic core carries the exact contract.

use vstd::prelude::*;

use crate::fixed::{fx_add, fx_div, fx_mul, Fx, SCALE};
use crate::point::Point;
use crate::ray::Ray;
use crate::sampling::{in_unit_disk, random_in_unit_disk, rand_unit};
use crate::vector::{v3_add, v3_cross, v3_hat, v3_scale, v3_sub, Vector, V3};

verus! {

/// One degree in radians, in fixed point (the nearest raw value to pi/180).
pub const RADIANS_PER_DEGREE: i64 = 1144;

/// Odd polynomial approximation of the tangent,
/// `x + x^3/3 + 2 x^5/15` (the first terms of its series), evaluated in
/// fixed point.  Adequate for half-angles well below a right angle.
pub open spec fn tan_approx_spec(x: int) -> int {
    let x2 = fx_mul(x, x);
    let x3 = fx_mul(x2, x);
    let x5 = fx_mul(x2, x3);
    fx_add(
        fx_add(x, fx_div(x3, 3 * SCALE as int)),
        fx_div(fx_mul(2 * SCALE as int, x5), 15 * SCALE as int),
    )
}

pub fn tan_approx(x: Fx) -> (r: Fx)
    ensures
        r.raw == tan_approx_spec(x.raw as int),
{
    let x2 = x.mul(x);
    let x3 = x2.mul(x);
    let x5 = x2.mul(x3);
    x.add(x3.div(Fx::from_raw(3 * SCALE))).add(
        Fx::from_raw(2 * SCALE).mul(x5).div(Fx::from_raw(15 * SCALE)),
    )
}

/// Half the viewport height: the tangent of half the vertical field of
/// view, which is given in degrees.
pub open spec fn camera_half_height(vfov: int) -> int {
    tan_approx_spec(fx_div(fx_mul(vfov, RADIANS_PER_DEGREE as int), 2 * SCALE as int))
}

pub open spec fn camera_half_width(vfov: int, aspect: int) -> int {
    fx_mul(aspect, camera_half_height(vfov))
}

/// A perspective camera with a thin-lens aperture for depth of field.
#[derive(Clone, Copy, Debug, PartialEq, Eq, Structural)]
pub struct Camera {
    pub origin: Point,
    pub lower_left_corner: Point,
    pub horizontal: Vector,
    pub vertical: Vector,
    pub u: Vector,
    pub v: Vector,
    pub w: Vector,
    pub lens_radius: Fx,
}

/// Where a ray leaves the lens, given the unit-disk sample: the origin
/// offset within the aperture.
pub open spec fn camera_ray_origin(c: Camera, disk: V3) -> V3 {
    let rd = v3_scale(disk, c.lens_radius.raw as int);
    let offset = v3_add(v3_scale(c.u@, rd.x), v3_scale(c.v@, rd.y));
    v3_add(c.origin@, offset)
}

/// Where a ray points, given the viewport coordinates `s`, `t` in [0, 1]
/// and the unit-disk sample.
pub open spec fn camera_ray_direction(c: Camera, s: int, t: int, disk: V3) -> V3 {
    let rd = v3_scale(disk, c.lens_radius.raw as int);
    let offset = v3_add(v3_scale(c.u@, rd.x), v3_scale(c.v@, rd.y));
    v3_sub(
        v3_sub(
            v3_add(
                v3_add(c.lower_left_corner@, v3_scale(c.horizontal@, s)),
                v3_scale(c.vertical@, t),
            ),
            c.origin@,
        ),
        offset,
    )
}

impl Camera {
    /// Precompute the camera basis: `w` looks backward along the view
    /// direction, `u` spans the image to the right, `v` upward; the
    /// viewport is scaled by the focus distance so the focal plane lies at
    /// that distance; the lens radius is half the aperture.
    pub fn new(
        lookfrom: Point,
        lookat: Point,
        vup: Vector,
        vfov: Fx,
        aspect: Fx,
        aperture: Fx,
        focus_dist: Fx,
    ) -> (c: Camera)
        ensures
            c.origin == lookfrom,
            c.w@ == v3_hat(v3_sub(lookfrom@, lookat@)),
            c.u@ == v3_hat(v3_cross(vup@, c.w@)),
            c.v@ == v3_cross(c.w@, c.u@),
            c.lower_left_corner@ == v3_sub(
                v3_sub(
                    v3_sub(
                        lookfrom@,
                        v3_scale(
                            c.u@,
                            fx_mul(
                                camera_half_width(vfov.raw as int, aspect.raw as int),
                                focus_dist.raw as int,
                            ),
                        ),
                    ),
                    v3_scale(
                        c.v@,
                        fx_mul(camera_half_height(vfov.raw as int), focus_dist.raw as int),
                    ),
                ),
                v3_scale(c.w@, focus_dist.raw as int),
            ),
            c.horizontal@ == v3_scale(
                c.u@,
                fx_mul(
                    fx_mul(
                        2 * SCALE as int,
                        camera_half_width(vfov.raw as int, aspect.raw as int),
                    ),
                    focus_dist.raw as int,
                ),
            ),
            c.vertical@ == v3_scale(
                c.v@,
                fx_mul(
                    fx_mul(2 * SCALE as int, camera_half_height(vfov.raw as int)),
                    focus_dist.raw as int,
                ),
            ),
            c.lens_radius.raw == fx_div(aperture.raw as int, 2 * SCALE as int),
    {
        let theta = vfov.mul(Fx::from_raw(RADIANS_PER_DEGREE));
        let half_height = tan_approx(theta.div(Fx::from_raw(2 * SCALE)));
        let half_width = aspect.mul(half_height);

        let origin = lookfrom;
        let w = lookfrom.sub(lookat).hat();
        let u = vup.cross(w).hat();
        let v = w.cross(u);

        Camera {
            origin,
            lower_left_corner: origin
                .sub_vector(u.mul(half_width.mul(focus_dist)))
                .sub_vector(v.mul(half_height.mul(focus_dist)))
                .sub_vector(w.mul(focus_dist)),
            horizontal: u.mul(Fx::from_raw(2 * SCALE).mul(half_width).mul(focus_dist)),
            vertical: v.mul(Fx::from_raw(2 * SCALE).mul(half_height).mul(focus_dist)),
            u,
            v,
            w,
            lens_radius: aperture.div(Fx::from_raw(2 * SCALE)),
        }
    }

    /// The ray for viewport coordinates `(s, t)` and an explicit unit-disk
    /// lens sample: a pure function of its arguments.
    pub fn get_ray_from(&self, s: Fx, t: Fx, disk: Vector) -> (r: Ray)
        ensures
            r.origin@ == camera_ray_origin(*self, disk@),
            r.direction@ == camera_ray_direction(*self, s.raw as int, t.raw as int, disk@),
    {
        let rd = disk.mul(self.lens_radius);
        let offset = self.u.mul(rd.x).add(self.v.mul(rd.y));

        Ray::new(
            self.origin.add(offset),
            self.lower_left_corner
                .add(self.horizontal.mul(s))
                .add(self.vertical.mul(t))
                .sub(self.origin)
                .sub(offset),
        )
    }

    /// The ray for viewport coordinates `(s, t)`, drawing the lens sample
    /// from `rng`: the ray of *some* unit-disk sample.
    pub fn get_ray(&self, s: Fx, t: Fx, rng: &mut rand::rngs::ThreadRng) -> (r: Ray)
        ensures
            exists|d: V3|
                in_unit_disk(d) && r.origin@ == camera_ray_origin(*self, d) && r.direction@
                    == camera_ray_direction(*self, s.raw as int, t.raw as int, d),
    {
        let disk = random_in_unit_disk(rng);
        let r = self.get_ray_from(s, t, disk);
        proof {
            assert(in_unit_disk(disk@) && r.origin@ == camera_ray_origin(*self, disk@)
                && r.direction@ == camera_ray_direction(
                *self,
                s.raw as int,
                t.raw as int,
                disk@,
            ));
        }
        r
    }
}

/// Ray generation is deterministic: two rays built from the same camera,
/// the same viewport coordinates and the same lens sample are equal.
pub proof fn lemma_get_ray_deterministic(c: Camera, s: Fx, t: Fx, disk: V3, r1: Ray, r2: Ray)
    requires
        r1.origin@ == camera_ray_origin(c, disk),
        r1.direction@ == camera_ray_direction(c, s.raw as int, t.raw as int, disk),
        r2.origin@ == camera_ray_origin(c, disk),
        r2.direction@ == camera_ray_direction(c, s.raw as int, t.raw as int, disk),
    ensures
        r1 == r2,
{
}

/// A fixed pinhole camera over a 2:1 viewport.
#[derive(Clone, Copy, Debug, PartialEq, Eq, Structural)]
pub struct PinholeCamera {
    pub origin: Point,
    pub lower_left_corner: Point,
    pub horizontal: Vector,
    pub vertical: Vector,
}

/// Where a pinhole ray points for viewport coordinates `(u, v)`.
pub open spec fn pinhole_ray_direction(c: PinholeCamera, u: int, v: int) -> V3 {
    v3_sub(
        v3_add(
            v3_add(c.lower_left_corner@, v3_scale(c.horizontal@, u)),
            v3_scale(c.vertical@, v),
        ),
        c.origin@,
    )
}

impl PinholeCamera {
    pub fn new() -> (c: PinholeCamera)
        ensures
            c.origin@ == (V3 { x: 0, y: 0, z: 2 * SCALE as int }),
            c.lower_left_corner@ == (V3 {
                x: -2 * SCALE as int,
                y: -(SCALE as int),
                z: -(SCALE as int),
            }),
            c.horizontal@ == (V3 { x: 4 * SCALE as int, y: 0, z: 0 }),
            c.vertical@ == (V3 { x: 0, y: 2 * SCALE as int, z: 0 }),
    {
        PinholeCamera {
            origin: Point::new(Fx::zero(), Fx::zero(), Fx::from_int(2)),
            lower_left_corner: Point::new(
                Fx::from_int(-2),
                Fx::from_int(-1),
                Fx::from_int(-1),
            ),
            horizontal: Vector::new(Fx::from_int(4), Fx::zero(), Fx::zero()),
            vertical: Vector::new(Fx::zero(), Fx::from_int(2), Fx::zero()),
        }
    }

    /// The ray for viewport coordinates `(u, v)`: a pure function of its
    /// arguments.
    pub fn get_ray(&self, u: Fx, v: Fx) -> (r: Ray)
        ensures
            r.origin == self.origin,
            r.direction@ == pinhole_ray_direction(*self, u.raw as int, v.raw as int),
    {
        Ray::new(
            self.origin,
            self.lower_left_corner
                .add(self.horizontal.mul(u))
                .add(self.vertical.mul(v))
                .sub(self.origin),
        )
    }
}

} // verus!
