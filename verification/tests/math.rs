//! Tests of the fixed-point scalars and the vector/point/ray/color types.

use raytracer::color::Color;
use raytracer::fixed::{Fx, FX_MAX, SCALE};
use raytracer::materials::{Lambertian, Material};
use raytracer::point::Point;
use raytracer::ray::Ray;
use raytracer::vector::Vector;
use raytracer::models::Sphere;

fn fx(n: i64) -> Fx {
    Fx::from_int(n)
}

fn fxr(n: i64, d: i64) -> Fx {
    Fx::from_ratio(n, d)
}

#[test]
fn vector_new() {
    let v = Vector::new(fx(6), fx(-4), fxr(3, 2));

    assert_eq!(v.x, fx(6));
    assert_eq!(v.y, fx(-4));
    assert_eq!(v.z, fxr(3, 2));
}

#[test]
fn zero() {
    let v = Vector::zero();

    assert_eq!(v, Vector::new(fx(0), fx(0), fx(0)));
}

#[test]
fn color_new() {
    let c = Color::new(fxr(1, 2), fxr(1, 4), fx(0));

    assert_eq!(c.r, fxr(1, 2));
    assert_eq!(c.g, fxr(1, 4));
    assert_eq!(c.b, fx(0));
}

#[test]
fn black() {
    let c = Color::black();

    assert_eq!(c, Color::new(fx(0), fx(0), fx(0)));
}

#[test]
fn ray_new() {
    let o = Point::new(fx(5), fx(4), fx(3));
    let d = Vector::new(fx(1), fx(0), fx(0));
    let r = Ray::new(o, d);

    assert_eq!(r.origin, o);
    assert_eq!(r.direction, d);
}

#[test]
fn models_new() {
    let c = Point::new(fx(3), fx(4), fx(5));
    let r = fx(6);
    let m = Material::Lambertian(Lambertian::new(Vector::new(fxr(4, 5), fxr(4, 5), fx(0))));
    let s = Sphere::new(c, r, m);

    assert_eq!(s.center, c);
    assert_eq!(s.radius, r);
}

#[test]
fn fixed_ratio_and_raw() {
    assert_eq!(fxr(1, 2).raw, SCALE / 2);
    assert_eq!(fxr(-1, 2).raw, -(SCALE / 2));
    assert_eq!(fx(3).raw, 3 * SCALE);
    assert_eq!(fxr(1, 3).raw, 21845);
}

#[test]
fn fixed_saturates_instead_of_wrapping() {
    let top = Fx::from_raw(FX_MAX);
    assert_eq!(top.add(Fx::one()).raw, FX_MAX);
    assert_eq!(top.neg().raw, -FX_MAX);
    assert_eq!(top.sub(top.neg()).raw, FX_MAX);
    assert_eq!(top.mul(fx(2)).raw, FX_MAX);
    assert_eq!(top.neg().mul(fx(2)).raw, -FX_MAX);
}

#[test]
fn fixed_division_policy() {
    assert_eq!(fx(1).div(fx(0)).raw, 0);
    assert_eq!(fx(7).div(fx(2)), fxr(7, 2));
    assert_eq!(fx(-7).div(fx(2)), fxr(-7, 2));
    assert_eq!(fx(7).div(fx(-2)), fxr(-7, 2));
    assert_eq!(fx(-7).div(fx(-2)), fxr(7, 2));
}

#[test]
fn fixed_sqrt() {
    assert_eq!(fx(4).sqrt(), fx(2));
    assert_eq!(fx(9).sqrt(), fx(3));
    assert_eq!(fxr(1, 4).sqrt(), fxr(1, 2));
    assert_eq!(fx(-4).sqrt(), fx(0));
    assert_eq!(fx(2).sqrt().raw, 92681);
}

#[test]
fn fixed_mul_truncates_toward_zero() {
    assert_eq!(fxr(1, 3).mul(fx(3)).raw, 65535);
    assert_eq!(fxr(-1, 3).mul(fx(3)).raw, -65535);
}

#[test]
fn vector_operations() {
    let a = Vector::new(fx(1), fx(2), fx(3));
    let b = Vector::new(fx(4), fx(-5), fx(6));

    assert_eq!(a.add(b), Vector::new(fx(5), fx(-3), fx(9)));
    assert_eq!(a.sub(b), Vector::new(fx(-3), fx(7), fx(-3)));
    assert_eq!(a.neg(), Vector::new(fx(-1), fx(-2), fx(-3)));
    assert_eq!(a.mul(fx(2)), Vector::new(fx(2), fx(4), fx(6)));
    assert_eq!(a.div(fx(2)), Vector::new(fxr(1, 2), fx(1), fxr(3, 2)));
    assert_eq!(a.dot(b), fx(4 - 10 + 18));
    assert_eq!(a.cross(b), Vector::new(fx(27), fx(6), fx(-13)));
    assert_eq!(a.norm_sqr(), fx(14));
}

#[test]
fn vector_hat_gives_unit_norm() {
    let v = Vector::new(fx(3), fx(0), fx(4));
    assert_eq!(v.norm(), fx(5));
    let u = v.hat();
    assert_eq!(u, Vector::new(fxr(3, 5), fx(0), fxr(4, 5)));

    let n = u.norm_sqr().raw;
    assert!((SCALE - 4..=SCALE + 4).contains(&n));
}

#[test]
fn hat_of_zero_vector_is_zero() {
    assert_eq!(Vector::zero().hat(), Vector::zero());
}

#[test]
fn point_affine_roles() {
    let p = Point::new(fx(1), fx(2), fx(3));
    let q = Point::new(fx(4), fx(6), fx(8));
    let v = Vector::new(fx(3), fx(4), fx(5));

    assert_eq!(q.sub(p), v);
    assert_eq!(p.add(v), q);
    assert_eq!(q.sub_vector(v), p);
    assert_eq!(Point::origin(), Point::new(fx(0), fx(0), fx(0)));
}

#[test]
fn ray_at_walks_the_ray() {
    let r = Ray::new(
        Point::new(fx(1), fx(0), fx(0)),
        Vector::new(fx(0), fx(2), fx(0)),
    );
    assert_eq!(r.at(fxr(3, 2)), Point::new(fx(1), fx(3), fx(0)));
    assert_eq!(r.at(fx(0)), Point::new(fx(1), fx(0), fx(0)));
}

#[test]
fn color_blend_and_attenuate() {
    let white = Color::new(fx(1), fx(1), fx(1));
    let blue = Color::new(fxr(1, 2), fxr(7, 10), fx(1));

    assert_eq!(Color::blend(fx(0), white, blue), white);
    assert_eq!(Color::blend(fx(1), white, blue), blue);
    let mid = Color::blend(fxr(1, 2), white, blue);
    assert_eq!(mid.r, fxr(3, 4));
    assert_eq!(mid.b, fx(1));

    let albedo = Vector::new(fxr(4, 5), fxr(3, 10), fxr(3, 10));
    let attenuated = white.attenuate(albedo);
    assert_eq!(attenuated.r, fxr(4, 5));
    assert_eq!(attenuated.g, fxr(3, 10));
    assert_eq!(attenuated.b, fxr(3, 10));

    let sum = white.add(blue);
    assert_eq!(sum.r, fxr(3, 2));
    assert_eq!(sum.div_scalar(fx(2)).r, fxr(3, 4));
}

#[test]
fn color_clamp_unit() {
    let c = Color::new(fx(2), fx(-1), fxr(1, 2));
    let clamped = c.clamp_unit();
    assert_eq!(clamped.r, fx(1));
    assert_eq!(clamped.g, fx(0));
    assert_eq!(clamped.b, fxr(1, 2));
}
