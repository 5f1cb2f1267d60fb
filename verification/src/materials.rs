//! Materials: the per-hit scattering policies.
//!
//! The material kinds form a closed sum (`Material`), dispatched by `match`.
//! Scattering that draws randomness is split in two layers: a pure function
//! of the explicit sample (`*_scatter_from`, with an exact contract) and a
//! thin wrapper that draws the sample and calls it.

use vstd::prelude::*;

use crate::fixed::{fx_add, fx_div, fx_mul, fx_neg, fx_sqrt, fx_sub, Fx, SCALE};
use crate::models::{HitRec, HitResult};
use crate::ray::Ray;
use crate::sampling::{in_unit_ball, random_in_unit_sphere, rand_unit};
use crate::vector::{
    v3_add, v3_dot, v3_hat, v3_in_unit, v3_neg, v3_norm, v3_scale, v3_sub, Vector, V3,
};

verus! {

/// A scattered ray together with the color attenuation it carries.
#[derive(Clone, Copy, Debug, PartialEq, Eq, Structural)]
pub struct ScatterResult {
    pub scattered: Ray,
    pub attenuation: Vector,
}

/// A diffuse material: scatters toward a random point of the unit ball
/// around the normal tip, attenuating by its albedo.
#[derive(Clone, Copy, Debug, PartialEq, Eq, Structural)]
pub struct Lambertian {
    pub albedo: Vector,
}

impl Lambertian {
    pub fn new(albedo: Vector) -> (m: Lambertian)
        ensures
            m.albedo == albedo,
    {
        Lambertian { albedo }
    }
}

/// A reflective material with a fuzz radius blurring the mirror direction.
#[derive(Clone, Copy, Debug, PartialEq, Eq, Structural)]
pub struct Metal {
    pub albedo: Vector,
    pub fuzz: Fx,
}

impl Metal {
    /// The fuzz is clamped into [0, 1] at construction.
    pub fn new(albedo: Vector, fuzz: Fx) -> (m: Metal)
        ensures
            m.albedo == albedo,
            m.fuzz.raw == if fuzz.raw > SCALE {
                SCALE as int
            } else if fuzz.raw < 0 {
                0int
            } else {
                fuzz.raw as int
            },
    {
        let f = if fuzz.raw > SCALE {
            Fx::one()
        } else if fuzz.raw < 0 {
            Fx::zero()
        } else {
            fuzz
        };
        Metal { albedo, fuzz: f }
    }
}

/// A clear material that refracts or reflects by Snell's law and Schlick's
/// approximation of Fresnel reflectance.
#[derive(Clone, Copy, Debug, PartialEq, Eq, Structural)]
pub struct Dielectric {
    pub refractive_index: Fx,
}

impl Dielectric {
    pub fn new(refractive_index: Fx) -> (m: Dielectric)
        ensures
            m.refractive_index == refractive_index,
    {
        Dielectric { refractive_index }
    }
}

/// A material whose attenuation never amplifies a color channel: its
/// albedo components lie in [0, 1].  (A dielectric attenuates by white.)
pub open spec fn material_wf(m: Material) -> bool {
    match m {
        Material::Lambertian(l) => v3_in_unit(l.albedo@),
        Material::Metal(mt) => v3_in_unit(mt.albedo@),
        Material::Dielectric(_) => true,
    }
}

/// The closed set of material kinds.
#[derive(Clone, Copy, Debug, PartialEq, Eq, Structural)]
pub enum Material {
    Lambertian(Lambertian),
    Metal(Metal),
    Dielectric(Dielectric),
}

/// The mathematical image of a `ScatterResult`.
pub struct ScatterRec {
    pub origin: V3,
    pub direction: V3,
    pub attenuation: V3,
}

impl ScatterResult {
    pub open spec fn view(self) -> ScatterRec {
        ScatterRec {
            origin: self.scattered.origin@,
            direction: self.scattered.direction@,
            attenuation: self.attenuation@,
        }
    }
}

/// The image of an optional scatter result.
pub open spec fn opt_scatter(res: Option<ScatterResult>) -> Option<ScatterRec> {
    match res {
        Some(sr) => Some(sr@),
        None => None,
    }
}

/// Mirror reflection of `v` about `n`: `v - n * (2 * (v . n))`.
pub open spec fn reflect_v3(v: V3, n: V3) -> V3 {
    v3_sub(v, v3_scale(n, fx_mul(2 * SCALE as int, v3_dot(v, n))))
}

pub fn reflect(v: Vector, n: Vector) -> (r: Vector)
    ensures
        r@ == reflect_v3(v@, n@),
{
    v.sub(n.mul(Fx::from_raw(2 * SCALE).mul(v.dot(n))))
}

/// Refraction by Snell's law in vector form; `None` under total internal
/// reflection (nonpositive discriminant).
pub open spec fn refract_v3(v: V3, n: V3, ni_over_nt: int) -> Option<V3> {
    let uv = v3_hat(v);
    let dt = v3_dot(uv, n);
    let disc = fx_sub(
        SCALE as int,
        fx_mul(fx_mul(ni_over_nt, ni_over_nt), fx_sub(SCALE as int, fx_mul(dt, dt))),
    );
    if disc > 0 {
        Some(
            v3_sub(
                v3_scale(v3_sub(uv, v3_scale(n, dt)), ni_over_nt),
                v3_scale(n, fx_sqrt(disc)),
            ),
        )
    } else {
        None
    }
}

pub fn refract(v: Vector, n: Vector, ni_over_nt: Fx) -> (r: Option<Vector>)
    ensures
        match (r, refract_v3(v@, n@, ni_over_nt.raw as int)) {
            (Some(v1), Some(v2)) => v1@ == v2,
            (None, None) => true,
            _ => false,
        },
{
    let uv = v.hat();
    let dt = uv.dot(n);
    let disc = Fx::one().sub(
        ni_over_nt.mul(ni_over_nt).mul(Fx::one().sub(dt.mul(dt))),
    );
    if disc.raw > 0 {
        Some(uv.sub(n.mul(dt)).mul(ni_over_nt).sub(n.mul(disc.sqrt())))
    } else {
        None
    }
}

/// Schlick's approximation of Fresnel reflectance:
/// `r0 + (1 - r0) * (1 - cosine)^5` with `r0 = ((1 - n) / (1 + n))^2`.
pub open spec fn schlick_spec(cosine: int, refractive_index: int) -> int {
    let a = fx_div(fx_sub(SCALE as int, refractive_index), fx_add(SCALE as int, refractive_index));
    let r0 = fx_mul(a, a);
    let p = fx_sub(SCALE as int, cosine);
    let p5 = fx_mul(fx_mul(fx_mul(fx_mul(p, p), p), p), p);
    fx_add(r0, fx_mul(fx_sub(SCALE as int, r0), p5))
}

pub fn schlick(cosine: Fx, refractive_index: Fx) -> (r: Fx)
    ensures
        r.raw == schlick_spec(cosine.raw as int, refractive_index.raw as int),
{
    let a = Fx::one().sub(refractive_index).div(Fx::one().add(refractive_index));
    let r0 = a.mul(a);
    let p = Fx::one().sub(cosine);
    let p5 = p.mul(p).mul(p).mul(p).mul(p);
    r0.add(Fx::one().sub(r0).mul(p5))
}

/// What a Lambertian surface scatters, given the unit-ball sample: a ray
/// from the hit point toward `hit_point + normal + sample`, attenuated by
/// the albedo.  A Lambertian surface never absorbs.
pub open spec fn lambertian_scatter_rec(m: Lambertian, hit: HitRec, sample: V3) -> ScatterRec {
    let target = v3_add(v3_add(hit.point, hit.normal), sample);
    ScatterRec {
        origin: hit.point,
        direction: v3_sub(target, hit.point),
        attenuation: m.albedo@,
    }
}

/// What a metal surface scatters, given the unit-ball sample: the mirror
/// reflection of the normalized incoming direction, perturbed by
/// `fuzz * sample`; absorbed (`None`) unless the result points away from
/// the surface.
pub open spec fn metal_scatter_rec(m: Metal, r: Ray, hit: HitRec, sample: V3) -> Option<
    ScatterRec,
> {
    let reflected = reflect_v3(v3_hat(r.direction@), hit.normal);
    let dir = v3_add(reflected, v3_scale(sample, m.fuzz.raw as int));
    if v3_dot(dir, hit.normal) > 0 {
        Some(ScatterRec { origin: hit.point, direction: dir, attenuation: m.albedo@ })
    } else {
        None
    }
}

/// What a dielectric scatters, given the uniform draw `coin` in [0, 1):
/// the incoming ray is reflected, and refracted by Snell's law with the
/// normal and index ratio flipped when the ray exits the medium
/// (`d . n > 0`).  Under total internal reflection the reflection
/// probability is one; otherwise it is Schlick's approximation, and the
/// coin picks between reflection and refraction.  The attenuation is
/// always white: glass absorbs nothing.
pub open spec fn dielectric_scatter_rec(m: Dielectric, r: Ray, hit: HitRec, coin: int) -> ScatterRec {
    let ri = m.refractive_index.raw as int;
    let white = V3 { x: SCALE as int, y: SCALE as int, z: SCALE as int };
    let reflected = reflect_v3(r.direction@, hit.normal);
    let dn = v3_dot(r.direction@, hit.normal);
    let outward = if dn > 0 { v3_neg(hit.normal) } else { hit.normal };
    let ni_over_nt = if dn > 0 { ri } else { fx_div(SCALE as int, ri) };
    let cosine = if dn > 0 {
        fx_div(fx_mul(ri, dn), v3_norm(r.direction@))
    } else {
        fx_div(fx_neg(dn), v3_norm(r.direction@))
    };
    match refract_v3(r.direction@, outward, ni_over_nt) {
        Some(refr) => {
            let reflect_prob = schlick_spec(cosine, ri);
            if coin < reflect_prob {
                ScatterRec { origin: hit.point, direction: reflected, attenuation: white }
            } else {
                ScatterRec { origin: hit.point, direction: refr, attenuation: white }
            }
        },
        None => ScatterRec { origin: hit.point, direction: reflected, attenuation: white },
    }
}

/// `sr` is a scatter this material can produce for this ray and hit: the
/// pure per-kind scatter of some admissible draw (a unit-ball sample for
/// Lambertian and Metal, a uniform coin in [0, 1) for Dielectric).
pub open spec fn scatter_admissible(m: Material, r: Ray, hit: HitRec, sr: ScatterRec) -> bool {
    match m {
        Material::Lambertian(l) => exists|s: V3|
            in_unit_ball(s) && sr == lambertian_scatter_rec(l, hit, s),
        Material::Metal(mt) => exists|s: V3|
            in_unit_ball(s) && Some(sr) == metal_scatter_rec(mt, r, hit, s),
        Material::Dielectric(d) => exists|c: int|
            0 <= c < SCALE as int && sr == dielectric_scatter_rec(d, r, hit, c),
    }
}

impl Lambertian {
    /// The scatter of this surface for an explicit unit-ball sample.
    pub fn scatter_from(&self, hit: &HitResult, sample: Vector) -> (sr: ScatterResult)
        ensures
            sr@ == lambertian_scatter_rec(*self, hit@, sample@),
    {
        let target = hit.hit_point.add(hit.normal).add(sample);
        ScatterResult {
            scattered: Ray::new(hit.hit_point, target.sub(hit.hit_point)),
            attenuation: self.albedo,
        }
    }
}

impl Metal {
    /// The scatter of this surface for an explicit unit-ball sample.
    pub fn scatter_from(&self, ray: &Ray, hit: &HitResult, sample: Vector) -> (res: Option<
        ScatterResult,
    >)
        ensures
            opt_scatter(res) == metal_scatter_rec(*self, *ray, hit@, sample@),
    {
        let reflected = reflect(ray.direction.hat(), hit.normal);
        let scattered = Ray::new(hit.hit_point, reflected.add(sample.mul(self.fuzz)));
        if scattered.direction.dot(hit.normal).raw > 0 {
            Some(ScatterResult { scattered, attenuation: self.albedo })
        } else {
            None
        }
    }
}

impl Dielectric {
    /// The scatter of this surface for an explicit uniform draw in [0, 1).
    pub fn scatter_from(&self, ray: &Ray, hit: &HitResult, coin: Fx) -> (sr: ScatterResult)
        requires
            0 <= coin.raw < SCALE,
        ensures
            sr@ == dielectric_scatter_rec(*self, *ray, hit@, coin.raw as int),
    {
        let white = Vector::new(Fx::one(), Fx::one(), Fx::one());
        let reflected = reflect(ray.direction, hit.normal);
        let dn = ray.direction.dot(hit.normal);
        let outward_normal: Vector;
        let ni_over_nt: Fx;
        let cosine: Fx;

        if dn.raw > 0 {
            outward_normal = hit.normal.neg();
            ni_over_nt = self.refractive_index;
            cosine = self.refractive_index.mul(dn).div(ray.direction.norm());
        } else {
            outward_normal = hit.normal;
            ni_over_nt = Fx::one().div(self.refractive_index);
            cosine = dn.neg().div(ray.direction.norm());
        }

        let reflect_prob: Fx;
        let mut refracted = Vector::zero();
        match refract(ray.direction, outward_normal, ni_over_nt) {
            Some(r) => {
                refracted = r;
                reflect_prob = schlick(cosine, self.refractive_index);
            }
            None => {
                reflect_prob = Fx::one();
            }
        }

        if coin.lt(reflect_prob) {
            ScatterResult {
                scattered: Ray::new(hit.hit_point, reflected),
                attenuation: white,
            }
        } else {
            ScatterResult {
                scattered: Ray::new(hit.hit_point, refracted),
                attenuation: white,
            }
        }
    }
}

impl Material {
    /// Scatter an incoming ray at a hit, drawing this call's randomness
    /// from `rng`.  What comes back is the pure per-kind scatter of *some*
    /// unit-ball sample (Lambertian, Metal) or *some* uniform draw in
    /// [0, 1) (Dielectric).
    pub fn scatter(&self, ray: &Ray, hit: &HitResult, rng: &mut rand::rngs::ThreadRng) -> (res:
        Option<ScatterResult>)
        ensures
            match *self {
                Material::Lambertian(m) => exists|s: V3|
                    in_unit_ball(s) && opt_scatter(res) == Some(
                        lambertian_scatter_rec(m, hit@, s),
                    ),
                Material::Metal(m) => exists|s: V3|
                    in_unit_ball(s) && opt_scatter(res) == metal_scatter_rec(m, *ray, hit@, s),
                Material::Dielectric(m) => exists|c: int|
                    0 <= c < SCALE as int && opt_scatter(res) == Some(
                        dielectric_scatter_rec(m, *ray, hit@, c),
                    ),
            },
            material_wf(*self) && res is Some ==> v3_in_unit(res->Some_0.attenuation@),
            res is Some ==> scatter_admissible(*self, *ray, hit@, res->Some_0@),
    {
        match self {
            Material::Lambertian(m) => {
                let sample = random_in_unit_sphere(rng);
                let sr = m.scatter_from(hit, sample);
                proof {
                    assert(in_unit_ball(sample@) && opt_scatter(Some(sr)) == Some(
                        lambertian_scatter_rec(*m, hit@, sample@),
                    ));
                }
                Some(sr)
            }
            Material::Metal(m) => {
                let sample = random_in_unit_sphere(rng);
                let res = m.scatter_from(ray, hit, sample);
                proof {
                    assert(in_unit_ball(sample@) && opt_scatter(res) == metal_scatter_rec(
                        *m,
                        *ray,
                        hit@,
                        sample@,
                    ));
                }
                res
            }
            Material::Dielectric(m) => {
                let coin = Fx::from_raw(rand_unit(rng));
                let sr = m.scatter_from(ray, hit, coin);
                proof {
                    assert(0 <= coin.raw < SCALE as int && opt_scatter(Some(sr)) == Some(
                        dielectric_scatter_rec(*m, *ray, hit@, coin.raw as int),
                    ));
                }
                Some(sr)
            }
        }
    }
}

} // verus!
