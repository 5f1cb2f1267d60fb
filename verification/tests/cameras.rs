//! Tests of ray generation and the render loop's output contract.

use raytracer::camera::{Camera, PinholeCamera};
use raytracer::fixed::{Fx, SCALE};
use raytracer::materials::{Lambertian, Material};
use raytracer::models::{Model, Sphere};
use raytracer::orthographic::OrthographicCamera;
use raytracer::point::Point;
use raytracer::sampling::{random_in_unit_disk, random_in_unit_sphere};
use raytracer::scene::{quantize_channel, Scene};
use raytracer::vector::Vector;

fn fx(n: i64) -> Fx {
    Fx::from_int(n)
}

fn fxr(n: i64, d: i64) -> Fx {
    Fx::from_ratio(n, d)
}

fn perspective() -> Camera {
    Camera::new(
        Point::new(fx(3), fx(3), fx(2)),
        Point::new(fx(0), fx(0), fx(-1)),
        Vector::new(fx(0), fx(1), fx(0)),
        fx(20),
        fx(2),
        fx(2),
        fxr(52, 10),
    )
}

#[test]
fn camera_ray_generation_is_idempotent() {
    // The same viewport coordinates and the same lens sample give the
    // same ray, twice over: no hidden nondeterminism beyond the explicit
    // draws.
    let cam = perspective();
    let disk = Vector::new(fxr(1, 4), fxr(-1, 4), fx(0));
    let r1 = cam.get_ray_from(fxr(1, 3), fxr(2, 3), disk);
    let r2 = cam.get_ray_from(fxr(1, 3), fxr(2, 3), disk);
    assert_eq!(r1, r2);

    let p = PinholeCamera::new();
    assert_eq!(p.get_ray(fxr(1, 3), fxr(2, 3)), p.get_ray(fxr(1, 3), fxr(2, 3)));
}

#[test]
fn camera_without_aperture_starts_rays_at_its_origin() {
    let cam = Camera::new(
        Point::new(fx(0), fx(0), fx(1)),
        Point::new(fx(0), fx(0), fx(-1)),
        Vector::new(fx(0), fx(1), fx(0)),
        fx(90),
        fx(1),
        fx(0),
        fx(2),
    );
    let mut rng = rand::rng();
    for _ in 0..20 {
        let s = Fx::from_raw(rand::RngExt::random_range(&mut rng, 0..SCALE));
        let t = Fx::from_raw(rand::RngExt::random_range(&mut rng, 0..SCALE));
        let r = cam.get_ray(s, t, &mut rng);
        assert_eq!(r.origin, cam.origin);
    }
}

#[test]
fn pinhole_center_ray_points_forward() {
    let p = PinholeCamera::new();
    let r = p.get_ray(fxr(1, 2), fxr(1, 2));
    assert_eq!(r.origin, Point::new(fx(0), fx(0), fx(2)));
    assert_eq!(r.direction, Vector::new(fx(0), fx(0), fx(-3)));
}

#[test]
fn orthographic_two_by_two_pixel_centers() {
    // A 2x2 image over a view plane of width 2.0: four distinct rays, one
    // per pixel, each with direction (0,0,-1) and origin centered in its
    // pixel cell when the jitter is absent (zero).
    let cam = OrthographicCamera::new(2, 2, fx(2), 1);
    assert_eq!(cam.pixel_width, fx(1));
    assert_eq!(cam.pixel_height, fx(1));
    assert_eq!(cam.view_plane_half_width, fx(1));
    assert_eq!(cam.view_plane_half_height, fx(1));

    let no_jitter = fx(0);
    let mut origins = Vec::new();
    for y in 0..2 {
        for x in 0..2 {
            let r = cam.sample_ray(x, y, no_jitter, no_jitter);
            assert_eq!(r.direction, Vector::new(fx(0), fx(0), fx(-1)));
            assert!(!origins.contains(&r.origin));
            origins.push(r.origin);
        }
    }
    assert_eq!(origins.len(), 4);
    assert_eq!(origins[0], Point::new(fxr(-1, 2), fxr(-1, 2), fx(0)));
    assert_eq!(origins[1], Point::new(fxr(1, 2), fxr(-1, 2), fx(0)));
    assert_eq!(origins[2], Point::new(fxr(-1, 2), fxr(1, 2), fx(0)));
    assert_eq!(origins[3], Point::new(fxr(1, 2), fxr(1, 2), fx(0)));
}

#[test]
fn orthographic_jittered_rays_stay_in_their_cell() {
    // The jitter drawn inside `rays` lies in [0, 1), so each sampled
    // origin stays inside its pixel's footprint on the view plane.  This
    // would fail if the random draw ever left its promised range.
    let cam = OrthographicCamera::new(4, 2, fx(4), 16);
    let mut rng = rand::rng();
    for x in 0..4usize {
        for y in 0..2usize {
            let rays = cam.rays(x, y, &mut rng);
            assert_eq!(rays.len(), 16);
            let cell_x0 = fx(x as i64).mul(cam.pixel_width).sub(cam.view_plane_half_width);
            let cell_y0 = fx(y as i64).mul(cam.pixel_height).sub(cam.view_plane_half_height);
            for r in rays {
                assert_eq!(r.direction, Vector::new(fx(0), fx(0), fx(-1)));
                assert!(r.origin.x.raw >= cell_x0.raw);
                assert!(r.origin.x.raw < cell_x0.raw + cam.pixel_width.raw);
                assert!(r.origin.y.raw >= cell_y0.raw);
                assert!(r.origin.y.raw < cell_y0.raw + cam.pixel_height.raw);
            }
        }
    }
}

#[test]
fn unit_shape_samplers_respect_their_bounds() {
    let mut rng = rand::rng();
    for _ in 0..200 {
        let p = random_in_unit_sphere(&mut rng);
        assert!(p.norm_sqr().raw < SCALE);

        let d = random_in_unit_disk(&mut rng);
        assert!(d.norm_sqr().raw < SCALE);
        assert_eq!(d.z, fx(0));
    }
}

#[test]
fn quantize_channel_examples() {
    // A full channel lands on 255, an empty one on 0; the classic gamma-2
    // square root shows in the midtones: 0.25 averages to 0.5 and lands on
    // 127.
    assert_eq!(quantize_channel(fx(2), 2), 255);
    assert_eq!(quantize_channel(fx(0), 2), 0);
    assert_eq!(quantize_channel(fxr(1, 2), 2), 127);
    // Clamping: sums past one are treated as full brightness.
    assert_eq!(quantize_channel(fx(10), 2), 255);
    assert_eq!(quantize_channel(fx(-3), 2), 0);
}

#[test]
fn render_emits_one_byte_pixel_per_coordinate() {
    let mut scene = Scene::new(OrthographicCamera::new(3, 2, fx(2), 2));
    scene.add(Model::Sphere(Sphere::new(
        Point::new(fx(0), fx(0), fx(-2)),
        fx(1),
        Material::Lambertian(Lambertian::new(Vector::new(fxr(4, 5), fxr(3, 10), fxr(3, 10)))),
    )));

    let mut rng = rand::rng();
    let pixels = scene.render(&mut rng);
    assert_eq!(pixels.len(), 6);
    for p in pixels {
        assert!((0..=255).contains(&p.r));
        assert!((0..=255).contains(&p.g));
        assert!((0..=255).contains(&p.b));
    }
}

#[test]
fn render_sky_only_scene_is_uniform() {
    // With no models every ray sees the same sky (orthographic rays all
    // share one direction), so all pixels agree, and the blue channel is
    // fully saturated.
    let scene = Scene::new(OrthographicCamera::new(2, 2, fx(2), 3));
    let mut rng = rand::rng();
    let pixels = scene.render(&mut rng);
    assert_eq!(pixels.len(), 4);
    for p in &pixels {
        assert_eq!(*p, pixels[0]);
        assert_eq!(p.b, 255);
    }
}
