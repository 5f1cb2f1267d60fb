//! The orthographic camera: every ray shares the direction (0, 0, -1) and
//! rays differ only in origin, one per sample, jittered inside the pixel's
//! footprint on the view plane for anti-aliasing.

use vstd::prelude::*;

use crate::fixed::{fx_add, fx_div, fx_mul, fx_sub, sat, Fx, SCALE};
use crate::point::Point;
use crate::ray::Ray;
use crate::sampling::rand_unit;
use crate::vector::{Vector, V3};

verus! {

/// An orthographic camera over a fixed image size.
#[derive(Clone, Copy, Debug, PartialEq, Eq, Structural)]
pub struct OrthographicCamera {
    pub image_width: usize,
    pub image_height: usize,
    pub samples_per_pixel: usize,
    pub pixel_width: Fx,
    pub pixel_height: Fx,
    pub view_plane_half_width: Fx,
    pub view_plane_half_height: Fx,
    pub direction: Vector,
}

/// Where the sample ray for pixel `(x, y)` starts, given the jitters
/// `ju`, `jv` in [-1/2, 1/2): the center of the pixel's cell on the view
/// plane, offset by the jitter scaled to the pixel's footprint.  With both
/// jitters zero the origin is the cell's center.
pub open spec fn ortho_sample_origin(
    c: OrthographicCamera,
    x: int,
    y: int,
    ju: int,
    jv: int,
) -> V3 {
    let xf = sat(x * (SCALE as int));
    let yf = sat(y * (SCALE as int));
    V3 {
        x: fx_add(
            fx_add(
                fx_sub(fx_mul(xf, c.pixel_width.raw as int), c.view_plane_half_width.raw as int),
                fx_mul(SCALE as int / 2, c.pixel_width.raw as int),
            ),
            fx_mul(ju, c.pixel_width.raw as int),
        ),
        y: fx_add(
            fx_add(
                fx_sub(
                    fx_mul(yf, c.pixel_height.raw as int),
                    c.view_plane_half_height.raw as int,
                ),
                fx_mul(SCALE as int / 2, c.pixel_height.raw as int),
            ),
            fx_mul(jv, c.pixel_height.raw as int),
        ),
        z: 0,
    }
}

/// `r` is a sample ray of pixel `(x, y)`: its origin comes from some jitter
/// pair in [-1/2, 1/2) and it points along the camera direction.
pub open spec fn ortho_ray_matches(c: OrthographicCamera, x: int, y: int, r: Ray) -> bool {
    exists|ju: int, jv: int|
        -(SCALE as int) / 2 <= ju < SCALE as int / 2 && -(SCALE as int) / 2 <= jv < SCALE as int
            / 2 && r.origin@ == ortho_sample_origin(c, x, y, ju, jv) && r.direction == c.direction
}

impl OrthographicCamera {
    /// Precompute the view-plane geometry.  The view-plane height follows
    /// the image's aspect ratio; each pixel covers an equal footprint.
    pub fn new(
        image_width: usize,
        image_height: usize,
        view_plane_width: Fx,
        samples_per_pixel: usize,
    ) -> (c: OrthographicCamera)
        requires
            image_width <= i64::MAX,
            image_height <= i64::MAX,
        ensures
            c.image_width == image_width,
            c.image_height == image_height,
            c.samples_per_pixel == samples_per_pixel,
            c.pixel_width.raw == fx_div(
                view_plane_width.raw as int,
                sat(image_width * (SCALE as int)),
            ),
            c.pixel_height.raw == ({
                let vph = fx_mul(
                    view_plane_width.raw as int,
                    fx_div(sat(image_height * (SCALE as int)), sat(image_width * (SCALE as int))),
                );
                fx_div(vph, sat(image_height * (SCALE as int)))
            }),
            c.view_plane_half_width.raw == fx_div(view_plane_width.raw as int, 2 * SCALE as int),
            c.view_plane_half_height.raw == ({
                let vph = fx_mul(
                    view_plane_width.raw as int,
                    fx_div(sat(image_height * (SCALE as int)), sat(image_width * (SCALE as int))),
                );
                fx_div(vph, 2 * SCALE as int)
            }),
            c.direction@ == (V3 { x: 0, y: 0, z: -(SCALE as int) }),
    {
        let w = Fx::from_int(image_width as i64);
        let h = Fx::from_int(image_height as i64);
        let view_plane_height = view_plane_width.mul(h.div(w));
        let pixel_width = view_plane_width.div(w);
        let pixel_height = view_plane_height.div(h);

        OrthographicCamera {
            image_width,
            image_height,
            samples_per_pixel,
            pixel_width,
            pixel_height,
            view_plane_half_width: view_plane_width.div(Fx::from_raw(2 * SCALE)),
            view_plane_half_height: view_plane_height.div(Fx::from_raw(2 * SCALE)),
            direction: Vector::new(Fx::zero(), Fx::zero(), Fx::from_int(-1)),
        }
    }

    pub fn get_image_width(&self) -> (r: usize)
        ensures
            r == self.image_width,
    {
        self.image_width
    }

    pub fn get_image_height(&self) -> (r: usize)
        ensures
            r == self.image_height,
    {
        self.image_height
    }

    pub fn get_samples_per_pixel(&self) -> (r: usize)
        ensures
            r == self.samples_per_pixel,
    {
        self.samples_per_pixel
    }

    /// The sample ray of pixel `(x, y)` for an explicit jitter pair in
    /// [-1/2, 1/2]: a pure function of its arguments, centered in the
    /// pixel's cell when the jitter is zero.
    pub fn sample_ray(&self, x: usize, y: usize, ju: Fx, jv: Fx) -> (r: Ray)
        requires
            x <= i64::MAX,
            y <= i64::MAX,
        ensures
            r.origin@ == ortho_sample_origin(*self, x as int, y as int, ju.raw as int, jv.raw as int),
            r.direction == self.direction,
    {
        let half = Fx::from_raw(SCALE / 2);
        let horizontal_sample_offset = ju.mul(self.pixel_width);
        let vertical_sample_offset = jv.mul(self.pixel_height);

        let origin = Point::new(
            Fx::from_int(x as i64).mul(self.pixel_width).sub(self.view_plane_half_width).add(
                half.mul(self.pixel_width),
            ).add(horizontal_sample_offset),
            Fx::from_int(y as i64).mul(self.pixel_height).sub(self.view_plane_half_height).add(
                half.mul(self.pixel_height),
            ).add(vertical_sample_offset),
            Fx::zero(),
        );

        Ray { origin, direction: self.direction }
    }

    /// All sample rays of pixel `(x, y)`, with the jitters drawn from
    /// `rng`: `samples_per_pixel` rays, each a sample ray of this pixel.
    pub fn rays(&self, x: usize, y: usize, rng: &mut rand::rngs::ThreadRng) -> (rs: Vec<Ray>)
        requires
            x <= i64::MAX,
            y <= i64::MAX,
        ensures
            rs.len() == self.samples_per_pixel,
            forall|i: int|
                0 <= i < rs.len() ==> ortho_ray_matches(*self, x as int, y as int, #[trigger] rs[i]),
    {
        let mut rs: Vec<Ray> = Vec::new();
        let mut k: usize = 0;
        while k < self.samples_per_pixel
            invariant
                x <= i64::MAX,
                y <= i64::MAX,
                k <= self.samples_per_pixel,
                rs.len() == k,
                forall|i: int|
                    0 <= i < rs.len() ==> ortho_ray_matches(
                        *self,
                        x as int,
                        y as int,
                        #[trigger] rs[i],
                    ),
            decreases self.samples_per_pixel - k,
        {
            let ju = Fx::from_raw(rand_unit(rng) - SCALE / 2);
            let jv = Fx::from_raw(rand_unit(rng) - SCALE / 2);
            let r = self.sample_ray(x, y, ju, jv);
            proof {
                assert(-(SCALE as int) / 2 <= ju.raw < SCALE as int / 2 && -(SCALE as int) / 2
                    <= jv.raw < SCALE as int / 2 && r.origin@ == ortho_sample_origin(
                    *self,
                    x as int,
                    y as int,
                    ju.raw as int,
                    jv.raw as int,
                ) && r.direction == self.direction);
            }
            rs.push(r);
            k = k + 1;
        }
        rs
    }
}

} // verus!
