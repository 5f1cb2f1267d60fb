//! Tests of intersection and scene aggregation: the nearest-hit invariant,
//! the sky for missed rays, and the classic two-sphere scenario.

use raytracer::color::Color;
use raytracer::fixed::{Fx, FX_MAX, SCALE};
use raytracer::materials::{Lambertian, Material};
use raytracer::models::{Model, Plane, Sphere};
use raytracer::orthographic::OrthographicCamera;
use raytracer::point::Point;
use raytracer::ray::Ray;
use raytracer::scene::{Scene, T_MAX, T_MIN};
use raytracer::vector::Vector;

fn fx(n: i64) -> Fx {
    Fx::from_int(n)
}

fn fxr(n: i64, d: i64) -> Fx {
    Fx::from_ratio(n, d)
}

fn diffuse(r: Fx, g: Fx, b: Fx) -> Material {
    Material::Lambertian(Lambertian::new(Vector::new(r, g, b)))
}

fn test_camera() -> OrthographicCamera {
    OrthographicCamera::new(2, 2, fx(2), 1)
}

fn t_interval() -> (Fx, Fx) {
    (Fx::from_raw(T_MIN), Fx::from_raw(T_MAX))
}

#[test]
fn sphere_hit_reports_nearer_root_exactly() {
    // Sphere{center=(0,0,-1), radius=0.5}; ray from the origin toward
    // (0,0,-1) hits at exactly t = 0.5 in fixed point.
    let s = Sphere::new(
        Point::new(fx(0), fx(0), fx(-1)),
        fxr(1, 2),
        diffuse(fxr(4, 5), fxr(3, 10), fxr(3, 10)),
    );
    let r = Ray::new(Point::origin(), Vector::new(fx(0), fx(0), fx(-1)));
    let (tmin, tmax) = t_interval();

    let h = s.hit(&r, tmin, tmax).expect("the ray points at the sphere");
    assert_eq!(h.t, fxr(1, 2));
    assert_eq!(h.hit_point, Point::new(fx(0), fx(0), fxr(-1, 2)));
    assert_eq!(h.normal, Vector::new(fx(0), fx(0), fx(1)));
}

#[test]
fn sphere_normal_is_unit_within_tolerance() {
    // An off-axis hit: the reported normal has unit length up to
    // fixed-point rounding, and (hit_point - center) . normal is close to
    // the radius.
    let s = Sphere::new(
        Point::new(fx(0), fx(0), fx(-3)),
        fx(2),
        diffuse(fxr(1, 2), fxr(1, 2), fxr(1, 2)),
    );
    let r = Ray::new(
        Point::new(fx(1), fx(1), fx(0)),
        Vector::new(fx(0), fx(0), fx(-1)),
    );
    let (tmin, tmax) = t_interval();

    let h = s.hit(&r, tmin, tmax).expect("the ray points at the sphere");
    let tolerance = SCALE / 100;

    let norm_sqr = h.normal.norm_sqr().raw;
    assert!((norm_sqr - SCALE).abs() <= tolerance, "norm_sqr = {norm_sqr}");

    let outward = h.hit_point.sub(s.center);
    let projected = outward.dot(h.normal).raw;
    assert!((projected - s.radius.raw).abs() <= tolerance, "projected = {projected}");
    assert!(projected > 0);
}

#[test]
fn hollow_sphere_normal_points_inward() {
    // A negative radius flips the normal: the glass-shell construction.
    let s = Sphere::new(
        Point::new(fx(0), fx(0), fx(-1)),
        fxr(-1, 2),
        diffuse(fxr(1, 2), fxr(1, 2), fxr(1, 2)),
    );
    let r = Ray::new(Point::origin(), Vector::new(fx(0), fx(0), fx(-1)));
    let (tmin, tmax) = t_interval();

    let h = s.hit(&r, tmin, tmax).expect("the ray points at the shell");
    assert_eq!(h.t, fxr(1, 2));
    assert_eq!(h.normal, Vector::new(fx(0), fx(0), fx(-1)));
}

#[test]
fn sphere_miss_and_degenerate_discriminant() {
    let s = Sphere::new(
        Point::new(fx(0), fx(0), fx(-2)),
        fx(1),
        diffuse(fxr(1, 2), fxr(1, 2), fxr(1, 2)),
    );
    let (tmin, tmax) = t_interval();

    // Pointing away: both roots behind the origin.
    let away = Ray::new(Point::origin(), Vector::new(fx(0), fx(0), fx(1)));
    assert!(s.hit(&away, tmin, tmax).is_none());

    // Far off to the side: negative discriminant.
    let aside = Ray::new(Point::new(fx(5), fx(0), fx(0)), Vector::new(fx(0), fx(0), fx(-1)));
    assert!(s.hit(&aside, tmin, tmax).is_none());

    // Exactly grazing: the discriminant is zero, which reports no hit.
    let grazing = Ray::new(Point::new(fx(1), fx(0), fx(0)), Vector::new(fx(0), fx(0), fx(-1)));
    assert!(s.hit(&grazing, tmin, tmax).is_none());
}

#[test]
fn plane_hit_and_parallel_miss() {
    let pl = Plane::new(
        Point::new(fx(0), fx(0), fx(-2)),
        Vector::new(fx(0), fx(0), fx(1)),
        diffuse(fxr(1, 2), fxr(1, 2), fxr(1, 2)),
    );
    let (tmin, tmax) = t_interval();

    let r = Ray::new(Point::origin(), Vector::new(fx(0), fx(0), fx(-1)));
    let h = pl.hit(&r, tmin, tmax).expect("the ray crosses the plane");
    assert_eq!(h.t, fx(2));
    assert_eq!(h.hit_point, Point::new(fx(0), fx(0), fx(-2)));
    assert_eq!(h.normal, Vector::new(fx(0), fx(0), fx(1)));

    let parallel = Ray::new(Point::origin(), Vector::new(fx(1), fx(0), fx(0)));
    assert!(pl.hit(&parallel, tmin, tmax).is_none());
}

#[test]
fn plane_new_normalizes_its_normal() {
    let pl = Plane::new(
        Point::origin(),
        Vector::new(fx(0), fx(0), fx(5)),
        diffuse(fxr(1, 2), fxr(1, 2), fxr(1, 2)),
    );
    assert_eq!(pl.normal, Vector::new(fx(0), fx(0), fx(1)));
}

#[test]
fn two_sphere_scene_hits_first_sphere() {
    // Sphere{(0,0,-1), 0.5, Lambertian(0.8,0.3,0.3)} and the big floor
    // sphere {(0,-100.5,-1), 100, Lambertian(0.8,0.8,0)}: a ray from the
    // origin toward (0,0,-1) reports the small sphere at t = 0.5.
    let mut scene = Scene::new(test_camera());
    let first = diffuse(fxr(4, 5), fxr(3, 10), fxr(3, 10));
    scene.add(Model::Sphere(Sphere::new(
        Point::new(fx(0), fx(0), fx(-1)),
        fxr(1, 2),
        first,
    )));
    scene.add(Model::Sphere(Sphere::new(
        Point::new(fx(0), fxr(-201, 2), fx(-1)),
        fx(100),
        diffuse(fxr(4, 5), fxr(4, 5), fx(0)),
    )));

    let r = Ray::new(Point::origin(), Vector::new(fx(0), fx(0), fx(-1)));
    let (tmin, tmax) = t_interval();
    let h = scene.hit(&r, tmin, tmax).expect("the ray points at the scene");

    assert_eq!(h.t, fxr(1, 2));
    assert_eq!(h.material, first);
    assert_eq!(h.normal, Vector::new(fx(0), fx(0), fx(1)));
}

#[test]
fn overlapping_spheres_nearest_wins_either_order() {
    // Two spheres along the ray's path: whichever is added first, the hit
    // is the nearer one (t = 1.5), never the farther (t = 2.5).
    let near = Sphere::new(
        Point::new(fx(0), fx(0), fx(-2)),
        fxr(1, 2),
        diffuse(fxr(1, 2), fxr(1, 2), fxr(1, 2)),
    );
    let far = Sphere::new(
        Point::new(fx(0), fx(0), fx(-3)),
        fxr(1, 2),
        diffuse(fxr(4, 5), fx(0), fx(0)),
    );
    let r = Ray::new(Point::origin(), Vector::new(fx(0), fx(0), fx(-1)));
    let (tmin, tmax) = t_interval();

    let mut near_first = Scene::new(test_camera());
    near_first.add(Model::Sphere(near));
    near_first.add(Model::Sphere(far));
    let h1 = near_first.hit(&r, tmin, tmax).expect("hit expected");
    assert_eq!(h1.t, fxr(3, 2));
    assert_eq!(h1.material, near.material);

    let mut far_first = Scene::new(test_camera());
    far_first.add(Model::Sphere(far));
    far_first.add(Model::Sphere(near));
    let h2 = far_first.hit(&r, tmin, tmax).expect("hit expected");
    assert_eq!(h2.t, fxr(3, 2));
    assert_eq!(h2.material, near.material);
}

#[test]
fn narrowed_interval_excludes_known_hit() {
    // The shrinking-interval protocol: narrowing tmax to the known hit
    // parameter excludes that hit (the interval is open).
    let s = Sphere::new(
        Point::new(fx(0), fx(0), fx(-2)),
        fxr(1, 2),
        diffuse(fxr(1, 2), fxr(1, 2), fxr(1, 2)),
    );
    let r = Ray::new(Point::origin(), Vector::new(fx(0), fx(0), fx(-1)));
    let (tmin, _) = t_interval();

    let h = s.hit(&r, tmin, Fx::from_raw(T_MAX)).expect("hit expected");
    assert!(s.hit(&r, tmin, h.t).is_none());
}

#[test]
fn empty_scene_never_hits() {
    let scene = Scene::new(test_camera());
    let (tmin, tmax) = t_interval();
    let r = Ray::new(Point::origin(), Vector::new(fx(0), fx(0), fx(-1)));
    assert!(scene.hit(&r, tmin, tmax).is_none());
}

#[test]
fn missed_ray_sees_exact_sky_gradient() {
    // A ray missing everything returns the sky gradient; pointing along
    // -z, the unit direction's y is 0, so the blend factor is 1/2 and the
    // color is exactly ((1+0.5)/2, (1+0.7)/2, 1) in fixed point.
    let mut scene = Scene::new(test_camera());
    scene.add(Model::Sphere(Sphere::new(
        Point::new(fx(0), fx(0), fx(-5)),
        fx(1),
        diffuse(fxr(1, 2), fxr(1, 2), fxr(1, 2)),
    )));

    let r = Ray::new(Point::origin(), Vector::new(fx(1), fx(0), fx(0)));
    let (tmin, tmax) = t_interval();
    assert!(scene.hit(&r, tmin, tmax).is_none());

    let mut rng = rand::rng();
    let c = scene.color(r, 0, &mut rng);
    assert_eq!(c, Color::new(Fx::from_raw(49152), Fx::from_raw(55705), Fx::from_raw(65536)));
}

#[test]
fn exhausted_recursion_budget_is_black() {
    let mut scene = Scene::new(test_camera());
    scene.add(Model::Sphere(Sphere::new(
        Point::new(fx(0), fx(0), fx(-1)),
        fxr(1, 2),
        diffuse(fxr(1, 2), fxr(1, 2), fxr(1, 2)),
    )));

    let r = Ray::new(Point::origin(), Vector::new(fx(0), fx(0), fx(-1)));
    let mut rng = rand::rng();
    let c = scene.color(r, 50, &mut rng);
    assert_eq!(c, Color::black());
}

#[test]
fn color_stays_in_unit_range() {
    // Energy non-creation end to end: whatever the random bounces do, a
    // well-formed scene yields channels in [0, 1].
    let mut scene = Scene::new(test_camera());
    scene.add(Model::Sphere(Sphere::new(
        Point::new(fx(0), fx(0), fx(-1)),
        fxr(1, 2),
        diffuse(fxr(4, 5), fxr(3, 10), fxr(3, 10)),
    )));
    scene.add(Model::Sphere(Sphere::new(
        Point::new(fx(0), fxr(-201, 2), fx(-1)),
        fx(100),
        diffuse(fxr(4, 5), fxr(4, 5), fx(0)),
    )));

    let r = Ray::new(Point::origin(), Vector::new(fx(0), fx(0), fx(-1)));
    let mut rng = rand::rng();
    for _ in 0..50 {
        let c = scene.color(r, 0, &mut rng);
        for ch in [c.r.raw, c.g.raw, c.b.raw] {
            assert!((0..=SCALE).contains(&ch));
        }
    }
}
