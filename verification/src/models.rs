//! Intersectable geometry: spheres and planes, and the hit protocol.
//!
//! `hit(ray, tmin, tmax)` reports the nearest intersection whose ray
//! parameter lies strictly inside the open interval `(tmin, tmax)`, or
//! nothing.  The open interval is what lets callers both skip hits just
//! behind a bounce origin and narrow the search as closer hits are found.

use vstd::prelude::*;

use crate::fixed::{fx_add, fx_div, fx_mul, fx_neg, fx_sqrt, fx_sub, Fx, SCALE};
use crate::materials::Material;
use crate::point::Point;
use crate::ray::{ray_at, Ray};
use crate::vector::{v3_div, v3_dot, v3_hat, v3_sub, Vector, V3};

verus! {

/// The mathematical image of a hit: ray parameter, hit point, surface
/// normal (all raw fixed-point values) and the material struck.
pub struct HitRec {
    pub t: int,
    pub point: V3,
    pub normal: V3,
    pub material: Material,
}

/// A successful intersection: the ray parameter of the hit, the point
/// reached, the geometry's normal there (for spheres outward-facing,
/// flipping inward for a negative radius; for planes the configured
/// orientation), and the material of the object struck.
#[derive(Clone, Copy, Debug, PartialEq, Eq, Structural)]
pub struct HitResult {
    pub t: Fx,
    pub hit_point: Point,
    pub normal: Vector,
    pub material: Material,
}

impl HitResult {
    pub open spec fn view(self) -> HitRec {
        HitRec {
            t: self.t.raw as int,
            point: self.hit_point@,
            normal: self.normal@,
            material: self.material,
        }
    }
}

/// The image of an optional hit.
pub open spec fn opt_hit(res: Option<HitResult>) -> Option<HitRec> {
    match res {
        Some(h) => Some(h@),
        None => None,
    }
}

/// A sphere.  A negative radius is allowed: it flips the reported normal
/// inward, which is how hollow glass shells are built.
#[derive(Clone, Copy, Debug, PartialEq, Eq, Structural)]
pub struct Sphere {
    pub center: Point,
    pub radius: Fx,
    pub material: Material,
}

/// The hit record a sphere reports at parameter `t`.
pub open spec fn sphere_hit_at(s: Sphere, r: Ray, t: int) -> HitRec {
    let p = ray_at(r, t);
    HitRec {
        t,
        point: p,
        normal: v3_div(v3_sub(p, s.center@), s.radius.raw as int),
        material: s.material,
    }
}

/// Sphere intersection: solve `a t^2 + 2 b t + c = 0` for
/// `a = d.d`, `b = oc.d`, `c = oc.oc - radius^2`, `oc = origin - center`;
/// a positive discriminant `b^2 - a c` yields two roots, tried smaller
/// first, each against the open interval `(tmin, tmax)`.
pub open spec fn sphere_hit_rec(s: Sphere, r: Ray, tmin: int, tmax: int) -> Option<HitRec> {
    let oc = v3_sub(r.origin@, s.center@);
    let a = v3_dot(r.direction@, r.direction@);
    let b = v3_dot(oc, r.direction@);
    let c = fx_sub(v3_dot(oc, oc), fx_mul(s.radius.raw as int, s.radius.raw as int));
    let disc = fx_sub(fx_mul(b, b), fx_mul(a, c));
    if disc > 0 {
        let dsqrt = fx_sqrt(disc);
        let t1 = fx_div(fx_sub(fx_neg(b), dsqrt), a);
        let t2 = fx_div(fx_add(fx_neg(b), dsqrt), a);
        if tmin < t1 && t1 < tmax {
            Some(sphere_hit_at(s, r, t1))
        } else if tmin < t2 && t2 < tmax {
            Some(sphere_hit_at(s, r, t2))
        } else {
            None
        }
    } else {
        None
    }
}

impl Sphere {
    pub fn new(center: Point, radius: Fx, material: Material) -> (s: Sphere)
        ensures
            s == (Sphere { center, radius, material }),
    {
        Sphere { center, radius, material }
    }

    pub fn hit(&self, ray: &Ray, tmin: Fx, tmax: Fx) -> (res: Option<HitResult>)
        ensures
            opt_hit(res) == sphere_hit_rec(*self, *ray, tmin.raw as int, tmax.raw as int),
    {
        let oc = ray.origin.sub(self.center);
        let a = ray.direction.dot(ray.direction);
        let b = oc.dot(ray.direction);
        let c = oc.dot(oc).sub(self.radius.mul(self.radius));
        let discriminant = b.mul(b).sub(a.mul(c));

        if discriminant.raw > 0 {
            let dsqrt = discriminant.sqrt();
            let t1 = b.neg().sub(dsqrt).div(a);
            if tmin.lt(t1) && t1.lt(tmax) {
                let hit_point = ray.at(t1);
                return Some(HitResult {
                    t: t1,
                    hit_point,
                    normal: hit_point.sub(self.center).div(self.radius),
                    material: self.material,
                });
            }
            let t2 = b.neg().add(dsqrt).div(a);
            if tmin.lt(t2) && t2.lt(tmax) {
                let hit_point = ray.at(t2);
                return Some(HitResult {
                    t: t2,
                    hit_point,
                    normal: hit_point.sub(self.center).div(self.radius),
                    material: self.material,
                });
            }
        }

        None
    }
}

/// A plane through a point.  The normal handed to `new` is normalized once
/// at construction.
#[derive(Clone, Copy, Debug, PartialEq, Eq, Structural)]
pub struct Plane {
    pub point_on_plane: Point,
    pub normal: Vector,
    pub material: Material,
}

/// Plane intersection: a ray parallel to the plane (`n . d == 0`) misses;
/// otherwise the single crossing `t = n . (point - origin) / (n . d)` is
/// tested against the open interval.
pub open spec fn plane_hit_rec(pl: Plane, r: Ray, tmin: int, tmax: int) -> Option<HitRec> {
    let nd = v3_dot(pl.normal@, r.direction@);
    if nd != 0 {
        let t = fx_div(v3_dot(pl.normal@, v3_sub(pl.point_on_plane@, r.origin@)), nd);
        if tmin < t && t < tmax {
            Some(HitRec { t, point: ray_at(r, t), normal: pl.normal@, material: pl.material })
        } else {
            None
        }
    } else {
        None
    }
}

impl Plane {
    pub fn new(point_on_plane: Point, normal: Vector, material: Material) -> (pl: Plane)
        ensures
            pl.point_on_plane == point_on_plane,
            pl.normal@ == v3_hat(normal@),
            pl.material == material,
    {
        Plane { point_on_plane, normal: normal.hat(), material }
    }

    pub fn hit(&self, ray: &Ray, tmin: Fx, tmax: Fx) -> (res: Option<HitResult>)
        ensures
            opt_hit(res) == plane_hit_rec(*self, *ray, tmin.raw as int, tmax.raw as int),
    {
        let n_dot_d = self.normal.dot(ray.direction);
        if n_dot_d.raw != 0 {
            let t = self.normal.dot(self.point_on_plane.sub(ray.origin)).div(n_dot_d);
            if tmin.lt(t) && t.lt(tmax) {
                Some(HitResult {
                    t,
                    hit_point: ray.at(t),
                    normal: self.normal,
                    material: self.material,
                })
            } else {
                None
            }
        } else {
            None
        }
    }
}

/// The closed set of model kinds.
#[derive(Clone, Copy, Debug, PartialEq, Eq, Structural)]
pub enum Model {
    Sphere(Sphere),
    Plane(Plane),
}

/// The hit a model reports: dispatch on the kind.
pub open spec fn model_hit_rec(m: Model, r: Ray, tmin: int, tmax: int) -> Option<HitRec> {
    match m {
        Model::Sphere(s) => sphere_hit_rec(s, r, tmin, tmax),
        Model::Plane(pl) => plane_hit_rec(pl, r, tmin, tmax),
    }
}

impl Model {
    pub fn hit(&self, ray: &Ray, tmin: Fx, tmax: Fx) -> (res: Option<HitResult>)
        ensures
            opt_hit(res) == model_hit_rec(*self, *ray, tmin.raw as int, tmax.raw as int),
    {
        match self {
            Model::Sphere(s) => s.hit(ray, tmin, tmax),
            Model::Plane(pl) => pl.hit(ray, tmin, tmax),
        }
    }
}

/// A reported hit lies strictly inside the queried open interval.
pub proof fn lemma_model_hit_in_interval(m: Model, r: Ray, tmin: int, tmax: int)
    ensures
        match model_hit_rec(m, r, tmin, tmax) {
            Some(h) => tmin < h.t < tmax,
            None => true,
        },
{
}

/// Narrowing the interval preserves a miss: a model that reports no hit
/// inside `(tmin, t_old)` reports none inside any `(tmin, t_new)` with
/// `t_new <= t_old`.
pub proof fn lemma_model_hit_narrow(m: Model, r: Ray, tmin: int, t_new: int, t_old: int)
    requires
        t_new <= t_old,
        model_hit_rec(m, r, tmin, t_old) is None,
    ensures
        model_hit_rec(m, r, tmin, t_new) is None,
{
}

/// A sphere's two candidate roots come out in order: the one tried first
/// is never beyond the second.
proof fn lemma_sphere_roots_ordered(s: Sphere, r: Ray)
    ensures
        ({
            let oc = v3_sub(r.origin@, s.center@);
            let a = v3_dot(r.direction@, r.direction@);
            let b = v3_dot(oc, r.direction@);
            let c = fx_sub(v3_dot(oc, oc), fx_mul(s.radius.raw as int, s.radius.raw as int));
            let disc = fx_sub(fx_mul(b, b), fx_mul(a, c));
            let dsqrt = fx_sqrt(disc);
            fx_div(fx_sub(fx_neg(b), dsqrt), a) <= fx_div(fx_add(fx_neg(b), dsqrt), a)
        }),
{
    let oc = v3_sub(r.origin@, s.center@);
    let a = v3_dot(r.direction@, r.direction@);
    let b = v3_dot(oc, r.direction@);
    let c = fx_sub(v3_dot(oc, oc), fx_mul(s.radius.raw as int, s.radius.raw as int));
    let disc = fx_sub(fx_mul(b, b), fx_mul(a, c));
    let dsqrt = fx_sqrt(disc);
    crate::fixed::lemma_fx_sqrt_nonneg(disc);
    crate::vector::lemma_v3_dot_self_nonneg(r.direction@);
    let n1 = fx_sub(fx_neg(b), dsqrt);
    let n2 = fx_add(fx_neg(b), dsqrt);
    if a > 0 {
        crate::fixed::lemma_tdiv_is_ordered(n1 * (SCALE as int), n2 * (SCALE as int), a);
    }
}

/// A model's reported hit is its nearest: narrowing the interval to end at
/// the reported parameter leaves no hit.
pub proof fn lemma_model_hit_tight(m: Model, r: Ray, tmin: int, tmax: int)
    ensures
        match model_hit_rec(m, r, tmin, tmax) {
            Some(h) => model_hit_rec(m, r, tmin, h.t) is None,
            None => true,
        },
{
    match m {
        Model::Sphere(s) => {
            lemma_sphere_roots_ordered(s, r);
        }
        Model::Plane(_) => {}
    }
}

/// The orientation of a sphere's reported normal: with a positive radius
/// it points outward (nonnegative dot with the center-to-hit vector), with
/// a negative radius inward.
pub proof fn lemma_sphere_normal_orientation(s: Sphere, r: Ray, tmin: int, tmax: int)
    ensures
        match sphere_hit_rec(s, r, tmin, tmax) {
            Some(h) => {
                let d = v3_sub(h.point, s.center@);
                &&& s.radius.raw > 0 ==> v3_dot(d, h.normal) >= 0
                &&& s.radius.raw < 0 ==> v3_dot(d, h.normal) <= 0
            },
            None => true,
        },
{
    match sphere_hit_rec(s, r, tmin, tmax) {
        Some(h) => {
            let rad = s.radius.raw as int;
            let d = v3_sub(h.point, s.center@);
            if rad != 0 {
                lemma_component_div_sign(d.x, rad);
                lemma_component_div_sign(d.y, rad);
                lemma_component_div_sign(d.z, rad);
            }
        }
        None => {}
    }
}

/// The sign of one normal component against the component it came from:
/// dividing by the radius keeps (radius > 0) or flips (radius < 0) the
/// sign, so the product of the component and its quotient carries the
/// radius's sign.
proof fn lemma_component_div_sign(x: int, rad: int)
    requires
        rad != 0,
    ensures
        rad > 0 ==> fx_mul(x, fx_div(x, rad)) >= 0,
        rad < 0 ==> fx_mul(x, fx_div(x, rad)) <= 0,
{
    let q = fx_div(x, rad);
    crate::fixed::lemma_tdiv_sign(x * (SCALE as int), rad);
    if rad > 0 {
        assert(x >= 0 ==> x * (SCALE as int) >= 0);
        assert(x < 0 ==> x * (SCALE as int) < 0);
        assert(x >= 0 ==> q >= 0);
        assert(x < 0 ==> q <= 0);
        assert(x * q >= 0) by (nonlinear_arith)
            requires
                (x >= 0 && q >= 0) || (x < 0 && q <= 0),
        ;
        crate::fixed::lemma_tdiv_sign(x * q, SCALE as int);
    } else {
        assert(x >= 0 ==> q <= 0);
        assert(x < 0 ==> q >= 0);
        assert(x * q <= 0) by (nonlinear_arith)
            requires
                (x >= 0 && q <= 0) || (x < 0 && q >= 0),
        ;
        crate::fixed::lemma_tdiv_sign(x * q, SCALE as int);
    }
}

} // verus!
