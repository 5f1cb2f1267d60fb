//! Scenes: a collection of models, aggregate intersection, the recursive
//! radiance function and the render loop's per-pixel computation.

use vstd::arithmetic::div_mod::lemma_fundamental_div_mod_converse;
use vstd::prelude::*;

use crate::color::{
    c3_add, c3_attenuate, c3_blend, c3_in_unit, clamp_channel, clamp_unit_raw, Color, C3,
};
use crate::fixed::{
    fx_add, fx_div, fx_mul, fx_sqrt, fx_sub, lemma_fx_mul_attenuates, lemma_fx_sqrt_unit, sat,
    tdiv, Fx, FX_MAX, SCALE,
};
use crate::materials::{material_wf, scatter_admissible, Material, ScatterRec};
use crate::models::{
    lemma_model_hit_in_interval, lemma_model_hit_narrow, lemma_model_hit_tight, model_hit_rec,
    opt_hit, HitRec, HitResult, Model,
};
use crate::orthographic::{ortho_ray_matches, OrthographicCamera};
use crate::ray::Ray;
use crate::vector::{v3_hat, Vector, V3};

verus! {

/// The lower end of every primary ray's search interval: about 1e-3, so a
/// bounced ray does not re-hit its own origin through rounding error.
pub const T_MIN: i64 = 66;

/// The upper end of the initial search interval: the largest representable
/// ray parameter.
pub const T_MAX: i64 = FX_MAX;

/// The recursion budget of the radiance function.
pub const MAX_DEPTH: i32 = 50;

/// The material of a model.
pub open spec fn model_material(m: Model) -> Material {
    match m {
        Model::Sphere(s) => s.material,
        Model::Plane(pl) => pl.material,
    }
}

/// Every material in the scene is well-formed (attenuates, never
/// amplifies).
pub open spec fn scene_wf(models: Seq<Model>) -> bool {
    forall|i: int| 0 <= i < models.len() ==> material_wf(model_material(#[trigger] models[i]))
}

/// The nearest hit over a sequence of models: each model is queried with
/// the interval narrowed to the closest hit found so far, so the result is
/// the globally nearest intersection, not the first found.
pub open spec fn scene_hit_rec(models: Seq<Model>, r: Ray, tmin: int, tmax: int) -> Option<
    HitRec,
>
    decreases models.len(),
{
    if models.len() == 0 {
        None
    } else {
        let prev = scene_hit_rec(models.drop_last(), r, tmin, tmax);
        let closest = match prev {
            Some(h) => h.t,
            None => tmax,
        };
        match model_hit_rec(models.last(), r, tmin, closest) {
            Some(h) => Some(h),
            None => prev,
        }
    }
}

/// Sky blue, the lower end of the background gradient (0.5, 0.7, 1.0).
pub const SKY_BLUE_R: i64 = 32768;

pub const SKY_BLUE_G: i64 = 45875;

pub const SKY_BLUE_B: i64 = 65536;

/// The background a missed ray sees: white blended toward sky blue by the
/// height of the unit direction, `t = (unit.y + 1) / 2`.  The blend factor
/// is clamped into [0, 1]: rounding in the fixed-point normalization can
/// push it slightly past one, and this crate's explicit policy is to clamp
/// colors rather than let them leave the displayable range.
pub open spec fn sky_rec(d: V3) -> C3 {
    let t = clamp_unit_raw(fx_mul(SCALE as int / 2, fx_add(v3_hat(d).y, SCALE as int)));
    c3_blend(
        t,
        C3 { r: SCALE as int, g: SCALE as int, b: SCALE as int },
        C3 { r: SKY_BLUE_R as int, g: SKY_BLUE_G as int, b: SKY_BLUE_B as int },
    )
}

/// The background gradient for a direction.
pub fn sky(direction: Vector) -> (c: Color)
    ensures
        c@ == sky_rec(direction@),
{
    let unit_direction = direction.hat();
    let t = clamp_channel(
        Fx::from_raw(SCALE / 2).mul(unit_direction.y.add(Fx::one())),
    );
    Color::blend(
        t,
        Color::new(Fx::one(), Fx::one(), Fx::one()),
        Color::new(
            Fx::from_raw(SKY_BLUE_R),
            Fx::from_raw(SKY_BLUE_G),
            Fx::from_raw(SKY_BLUE_B),
        ),
    )
}

/// Blending two colors with channels in [0, 1] by a factor in [0, 1]
/// stays in [0, 1].
pub proof fn lemma_blend_unit(t: int, s: C3, e: C3)
    requires
        0 <= t <= SCALE as int,
        c3_in_unit(s),
        c3_in_unit(e),
    ensures
        c3_in_unit(c3_blend(t, s, e)),
{
    let u = fx_sub(SCALE as int, t);
    assert(fx_mul(u, s.r) == fx_mul(s.r, u));
    assert(fx_mul(u, s.g) == fx_mul(s.g, u));
    assert(fx_mul(u, s.b) == fx_mul(s.b, u));
    assert(fx_mul(t, e.r) == fx_mul(e.r, t));
    assert(fx_mul(t, e.g) == fx_mul(e.g, t));
    assert(fx_mul(t, e.b) == fx_mul(e.b, t));
    lemma_fx_mul_attenuates(s.r, u);
    lemma_fx_mul_attenuates(s.g, u);
    lemma_fx_mul_attenuates(s.b, u);
    lemma_fx_mul_attenuates(e.r, t);
    lemma_fx_mul_attenuates(e.g, t);
    lemma_fx_mul_attenuates(e.b, t);
}

/// The sky gradient is a displayable color.
pub proof fn lemma_sky_in_unit(d: V3)
    ensures
        c3_in_unit(sky_rec(d)),
{
    let t = clamp_unit_raw(fx_mul(SCALE as int / 2, fx_add(v3_hat(d).y, SCALE as int)));
    lemma_blend_unit(
        t,
        C3 { r: SCALE as int, g: SCALE as int, b: SCALE as int },
        C3 { r: SKY_BLUE_R as int, g: SKY_BLUE_G as int, b: SKY_BLUE_B as int },
    );
}

/// What the radiance function promises of its result for a ray, over every
/// random outcome: a ray that misses the whole scene sees exactly the sky
/// gradient, and a well-formed scene yields a displayable color.
pub open spec fn radiance_ok(models: Seq<Model>, r: Ray, c: C3) -> bool {
    &&& scene_hit_rec(models, r, T_MIN as int, T_MAX as int) is None ==> c == sky_rec(
        r.direction@,
    )
    &&& scene_wf(models) ==> c3_in_unit(c)
}

/// What a bounce yields for a hit within the recursion budget, over every
/// random outcome: the ray was absorbed (black), or some admissible
/// scatter of the hit material was taken and the result is a radiance for
/// the scattered ray, attenuated channel by channel by the scatter's
/// attenuation.
pub open spec fn bounce_ok(models: Seq<Model>, r: Ray, h: HitRec, c: C3) -> bool {
    ||| c == (C3 { r: 0, g: 0, b: 0 })
    ||| exists|sr: ScatterRec, sray: Ray, rec: C3|
        #![trigger scatter_admissible(h.material, r, h, sr), radiance_ok(models, sray, rec)]
        {
            &&& scatter_admissible(h.material, r, h, sr)
            &&& sray.origin@ == sr.origin
            &&& sray.direction@ == sr.direction
            &&& radiance_ok(models, sray, rec)
            &&& c == c3_attenuate(rec, sr.attenuation)
        }
}

/// The channel-wise sum of a sequence of sample colors, accumulated the
/// way the render loop does (left to right, saturating).
pub open spec fn c3_sum(cs: Seq<C3>) -> C3
    decreases cs.len(),
{
    if cs.len() == 0 {
        C3 { r: 0, g: 0, b: 0 }
    } else {
        c3_add(c3_sum(cs.drop_last()), cs.last())
    }
}

/// `c` can be one sample's radiance for pixel `(x, y)`: the scene's color
/// of some sample ray of that pixel.
pub open spec fn admissible_sample(
    cam: OrthographicCamera,
    models: Seq<Model>,
    c: C3,
    x: int,
    y: int,
) -> bool {
    exists|r: Ray| #[trigger] ortho_ray_matches(cam, x, y, r) && radiance_ok(models, r, c)
}

/// `p` is a rendered pixel for coordinate `(x, y)`: each channel is the
/// quantization of the channel-wise sum of `samples_per_pixel` admissible
/// sample radiances for that pixel.
pub open spec fn rendered_pixel(
    cam: OrthographicCamera,
    models: Seq<Model>,
    p: Rgb,
    x: int,
    y: int,
) -> bool {
    exists|cs: Seq<C3>|
        #![trigger cs.len()]
        {
            &&& cs.len() == cam.samples_per_pixel
            &&& forall|k: int|
                0 <= k < cs.len() ==> admissible_sample(cam, models, #[trigger] cs[k], x, y)
            &&& p.r == quantize_channel_rec(c3_sum(cs).r, cam.samples_per_pixel as int)
            &&& p.g == quantize_channel_rec(c3_sum(cs).g, cam.samples_per_pixel as int)
            &&& p.b == quantize_channel_rec(c3_sum(cs).b, cam.samples_per_pixel as int)
        }
}

/// The material reported by a model's hit is that model's material.
proof fn lemma_model_hit_material(m: Model, r: Ray, tmin: int, tmax: int)
    ensures
        match model_hit_rec(m, r, tmin, tmax) {
            Some(h) => h.material == model_material(m),
            None => true,
        },
{
}

/// The material of the scene's nearest hit is the material of one of its
/// models.
pub proof fn lemma_scene_hit_material(models: Seq<Model>, r: Ray, tmin: int, tmax: int)
    ensures
        match scene_hit_rec(models, r, tmin, tmax) {
            Some(h) => exists|i: int|
                0 <= i < models.len() && h.material == model_material(#[trigger] models[i]),
            None => true,
        },
    decreases models.len(),
{
    if models.len() > 0 {
        let rest = models.drop_last();
        lemma_scene_hit_material(rest, r, tmin, tmax);
        let prev = scene_hit_rec(rest, r, tmin, tmax);
        let closest = match prev {
            Some(h) => h.t,
            None => tmax,
        };
        match model_hit_rec(models.last(), r, tmin, closest) {
            Some(h) => {
                lemma_model_hit_material(models.last(), r, tmin, closest);
                assert(models.last() == models[models.len() - 1]);
            }
            None => {
                match prev {
                    Some(h) => {
                        let i = choose|i: int|
                            0 <= i < rest.len() && h.material == model_material(
                                #[trigger] rest[i],
                            );
                        assert(rest[i] == models[i]);
                    }
                    None => {}
                }
            }
        }
    }
}

/// 255.99 in fixed point: the classic quantization factor, chosen so a
/// channel of exactly one lands on 255 after truncation.
pub const BYTE_SCALE: i64 = 16776560;

/// One output pixel, with channels already quantized to the byte range.
#[derive(Clone, Copy, Debug, PartialEq, Eq, Structural)]
pub struct Rgb {
    pub r: i32,
    pub g: i32,
    pub b: i32,
}

/// All channels within the output byte range.
pub open spec fn rgb_in_byte(p: Rgb) -> bool {
    0 <= p.r <= 255 && 0 <= p.g <= 255 && 0 <= p.b <= 255
}

/// One channel quantized for output: the sample sum averaged over the
/// sample count, clamped into [0, 1] (this crate's explicit out-of-range
/// policy), gamma-2 corrected by a square root, scaled by 255.99 and
/// truncated to an integer.
pub open spec fn quantize_channel_rec(sum: int, n: int) -> int {
    let avg = fx_div(sum, sat(n * (SCALE as int)));
    let c = clamp_unit_raw(avg);
    let root = fx_sqrt(c);
    tdiv(fx_mul(BYTE_SCALE as int, root), SCALE as int)
}

/// Quantize one channel; the result always lies in the byte range.
pub fn quantize_channel(sum: Fx, n: usize) -> (b: i32)
    requires
        n <= i64::MAX,
    ensures
        b as int == quantize_channel_rec(sum.raw as int, n as int),
        0 <= b <= 255,
{
    let avg = sum.div(Fx::from_int(n as i64));
    let c = clamp_channel(avg);
    let root = c.sqrt();
    proof {
        lemma_fx_sqrt_unit(c.raw as int);
        assert(fx_mul(BYTE_SCALE as int, root.raw as int) == fx_mul(
            root.raw as int,
            BYTE_SCALE as int,
        ));
        lemma_fx_mul_attenuates(root.raw as int, BYTE_SCALE as int);
    }
    let scaled = Fx::from_raw(BYTE_SCALE).mul(root);
    (scaled.raw / SCALE) as i32
}

/// A ray that misses every model in the scene misses the scene: if each
/// model reports no hit inside `(tmin, tmax)`, the aggregate reports none.
pub proof fn lemma_scene_miss(models: Seq<Model>, r: Ray, tmin: int, tmax: int)
    requires
        forall|i: int|
            0 <= i < models.len() ==> model_hit_rec(#[trigger] models[i], r, tmin, tmax) is None,
    ensures
        scene_hit_rec(models, r, tmin, tmax) is None,
    decreases models.len(),
{
    if models.len() > 0 {
        let rest = models.drop_last();
        assert forall|i: int| 0 <= i < rest.len() implies model_hit_rec(
            #[trigger] rest[i],
            r,
            tmin,
            tmax,
        ) is None by {
            assert(rest[i] == models[i]);
        }
        lemma_scene_miss(rest, r, tmin, tmax);
        assert(models.last() == models[models.len() - 1]);
    }
}

/// Conversely, if the scene reports no hit, no model hits inside the full
/// interval.
pub proof fn lemma_scene_miss_converse(models: Seq<Model>, r: Ray, tmin: int, tmax: int)
    requires
        scene_hit_rec(models, r, tmin, tmax) is None,
    ensures
        forall|i: int|
            0 <= i < models.len() ==> model_hit_rec(#[trigger] models[i], r, tmin, tmax) is None,
    decreases models.len(),
{
    if models.len() > 0 {
        let rest = models.drop_last();
        let prev = scene_hit_rec(rest, r, tmin, tmax);
        lemma_scene_miss_converse(rest, r, tmin, tmax);
        assert forall|i: int| 0 <= i < models.len() implies model_hit_rec(
            #[trigger] models[i],
            r,
            tmin,
            tmax,
        ) is None by {
            if i < models.len() - 1 {
                assert(rest[i] == models[i]);
            } else {
                assert(models[i] == models.last());
            }
        }
    }
}

/// The nearest-hit invariant: when the scene reports a hit, no model hits
/// strictly closer — every model misses the narrowed interval
/// `(tmin, h.t)`.  With overlapping geometry this is exactly "the smaller
/// valid `t` wins, never a farther one".
#[verifier::rlimit(100)]
pub proof fn lemma_scene_hit_nearest(models: Seq<Model>, r: Ray, tmin: int, tmax: int)
    ensures
        match scene_hit_rec(models, r, tmin, tmax) {
            Some(h) => forall|i: int|
                0 <= i < models.len() ==> model_hit_rec(#[trigger] models[i], r, tmin, h.t)
                    is None,
            None => true,
        },
    decreases models.len(),
{
    if models.len() > 0 {
        let rest = models.drop_last();
        let last = models.last();
        let prev = scene_hit_rec(rest, r, tmin, tmax);
        let closest = match prev {
            Some(h) => h.t,
            None => tmax,
        };
        lemma_scene_hit_nearest(rest, r, tmin, tmax);
        match model_hit_rec(last, r, tmin, closest) {
            Some(h) => {
                lemma_model_hit_in_interval(last, r, tmin, closest);
                lemma_model_hit_tight(last, r, tmin, closest);
                assert forall|i: int| 0 <= i < models.len() implies model_hit_rec(
                    #[trigger] models[i],
                    r,
                    tmin,
                    h.t,
                ) is None by {
                    if i < models.len() - 1 {
                        assert(rest[i] == models[i]);
                        match prev {
                            Some(hp) => {
                                lemma_model_hit_narrow(models[i], r, tmin, h.t, hp.t);
                            }
                            None => {
                                lemma_scene_miss_converse(rest, r, tmin, tmax);
                                lemma_model_hit_narrow(models[i], r, tmin, h.t, tmax);
                            }
                        }
                    } else {
                        assert(models[i] == last);
                        lemma_model_hit_narrow(models[i], r, tmin, h.t, h.t);
                    }
                }
            }
            None => {
                match prev {
                    Some(hp) => {
                        assert forall|i: int| 0 <= i < models.len() implies model_hit_rec(
                            #[trigger] models[i],
                            r,
                            tmin,
                            hp.t,
                        ) is None by {
                            if i < models.len() - 1 {
                                assert(rest[i] == models[i]);
                            } else {
                                assert(models[i] == last);
                            }
                        }
                    }
                    None => {}
                }
            }
        }
    }
}

/// A scene: a camera and the models it views.  Built once, queried many
/// times; nothing is mutated during tracing.
pub struct Scene {
    pub camera: OrthographicCamera,
    pub models: Vec<Model>,
}

impl Scene {
    pub fn new(camera: OrthographicCamera) -> (s: Scene)
        ensures
            s.camera == camera,
            s.models@ =~= Seq::<Model>::empty(),
    {
        Scene { camera, models: Vec::new() }
    }

    pub fn add(&mut self, model: Model)
        ensures
            final(self).camera == old(self).camera,
            final(self).models@ == old(self).models@.push(model),
    {
        self.models.push(model);
    }

    /// The nearest hit among all models inside `(tmin, tmax)`, by a linear
    /// scan that narrows the interval to each hit found.
    pub fn hit(&self, r: &Ray, tmin: Fx, tmax: Fx) -> (res: Option<HitResult>)
        ensures
            opt_hit(res) == scene_hit_rec(self.models@, *r, tmin.raw as int, tmax.raw as int),
    {
        let ghost all = self.models@;
        let mut closest_so_far = tmax;
        let mut rc: Option<HitResult> = None;
        let mut i: usize = 0;
        while i < self.models.len()
            invariant
                i <= self.models.len(),
                all == self.models@,
                opt_hit(rc) == scene_hit_rec(all.take(i as int), *r, tmin.raw as int, tmax.raw as int),
                closest_so_far.raw as int == match opt_hit(rc) {
                    Some(h) => h.t,
                    None => tmax.raw as int,
                },
            decreases self.models.len() - i,
        {
            proof {
                assert(all.take(i + 1).drop_last() =~= all.take(i as int));
                assert(all.take(i + 1).last() == all[i as int]);
            }
            match self.models[i].hit(r, tmin, closest_so_far) {
                Some(hr) => {
                    closest_so_far = hr.t;
                    rc = Some(hr);
                }
                None => {}
            }
            i = i + 1;
        }
        proof {
            assert(all.take(self.models.len() as int) =~= all);
        }
        rc
    }

    /// The radiance along a ray: trace it over `(T_MIN, T_MAX)`; a miss
    /// sees the sky gradient; a hit scatters through its material and
    /// recurses, multiplying by the attenuation (`bounce_ok`); an absorbed
    /// ray, and a ray that exhausts the recursion budget, contributes
    /// black.
    ///
    /// For a scene whose materials are well-formed the result is always a
    /// displayable color: no bounce creates energy.
    pub fn color(&self, r: Ray, depth: i32, rng: &mut rand::rngs::ThreadRng) -> (c: Color)
        ensures
            scene_hit_rec(self.models@, r, T_MIN as int, T_MAX as int) is None ==> c@
                == sky_rec(r.direction@),
            scene_hit_rec(self.models@, r, T_MIN as int, T_MAX as int) is Some && depth
                >= MAX_DEPTH ==> c@ == (C3 { r: 0, g: 0, b: 0 }),
            scene_hit_rec(self.models@, r, T_MIN as int, T_MAX as int) is Some && depth
                < MAX_DEPTH ==> bounce_ok(
                self.models@,
                r,
                scene_hit_rec(self.models@, r, T_MIN as int, T_MAX as int)->Some_0,
                c@,
            ),
            scene_wf(self.models@) ==> c3_in_unit(c@),
        decreases MAX_DEPTH - depth,
    {
        match self.hit(&r, Fx::from_raw(T_MIN), Fx::from_raw(T_MAX)) {
            Some(hr) => {
                if depth < MAX_DEPTH {
                    proof {
                        lemma_scene_hit_material(self.models@, r, T_MIN as int, T_MAX as int);
                        if scene_wf(self.models@) {
                            let i = choose|i: int|
                                0 <= i < self.models@.len() && hr@.material == model_material(
                                    #[trigger] self.models@[i],
                                );
                            assert(material_wf(model_material(self.models@[i])));
                        }
                    }
                    match hr.material.scatter(&r, &hr, rng) {
                        Some(sr) => {
                            let rec = self.color(sr.scattered, depth + 1, rng);
                            let c = rec.attenuate(sr.attenuation);
                            proof {
                                assert(scatter_admissible(hr.material, r, hr@, sr@));
                                assert(radiance_ok(self.models@, sr.scattered, rec@));
                                assert(sr.scattered.origin@ == sr@.origin);
                                assert(sr.scattered.direction@ == sr@.direction);
                                assert(c@ == c3_attenuate(rec@, sr@.attenuation));
                                if scene_wf(self.models@) {
                                    assert(fx_mul(rec@.r, sr.attenuation@.x) == fx_mul(
                                        sr.attenuation@.x,
                                        rec@.r,
                                    ));
                                    assert(fx_mul(rec@.g, sr.attenuation@.y) == fx_mul(
                                        sr.attenuation@.y,
                                        rec@.g,
                                    ));
                                    assert(fx_mul(rec@.b, sr.attenuation@.z) == fx_mul(
                                        sr.attenuation@.z,
                                        rec@.b,
                                    ));
                                    lemma_fx_mul_attenuates(sr.attenuation@.x, rec@.r);
                                    lemma_fx_mul_attenuates(sr.attenuation@.y, rec@.g);
                                    lemma_fx_mul_attenuates(sr.attenuation@.z, rec@.b);
                                }
                            }
                            c
                        }
                        None => Color::black(),
                    }
                } else {
                    Color::black()
                }
            }
            None => {
                proof {
                    lemma_sky_in_unit(r.direction@);
                }
                sky(r.direction)
            }
        }
    }

    /// Render the full image: pixels in row order from the top row (highest
    /// y) to the bottom, left to right, so the pixel at index
    /// `(height - 1 - y) * width + x` belongs to coordinate `(x, y)`.  Each
    /// pixel is within the byte range, and is the quantization of the
    /// channel-wise sum of this pixel's sample radiances (`rendered_pixel`).
    #[verifier::rlimit(100)]
    pub fn render(&self, rng: &mut rand::rngs::ThreadRng) -> (pixels: Vec<Rgb>)
        requires
            self.camera.image_width <= i64::MAX,
            self.camera.image_height <= i64::MAX,
            self.camera.samples_per_pixel <= i64::MAX,
            (self.camera.image_width as int) * (self.camera.image_height as int)
                <= usize::MAX,
        ensures
            pixels.len() == (self.camera.image_height as int) * (
            self.camera.image_width as int),
            forall|i: int| 0 <= i < pixels.len() ==> rgb_in_byte(#[trigger] pixels[i]),
            forall|i: int|
                0 <= i < pixels.len() ==> rendered_pixel(
                    self.camera,
                    self.models@,
                    #[trigger] pixels[i],
                    i % (self.camera.image_width as int),
                    (self.camera.image_height as int) - 1 - i / (
                    self.camera.image_width as int),
                ),
    {
        let w = self.camera.get_image_width();
        let h = self.camera.get_image_height();
        let mut pixels: Vec<Rgb> = Vec::new();
        let mut y = h;
        while y > 0
            invariant
                y <= h,
                w == self.camera.image_width,
                h == self.camera.image_height,
                w <= i64::MAX,
                h <= i64::MAX,
                self.camera.samples_per_pixel <= i64::MAX,
                (w as int) * (h as int) <= usize::MAX,
                pixels.len() == ((h - y) as int) * (w as int),
                forall|i: int| 0 <= i < pixels.len() ==> rgb_in_byte(#[trigger] pixels[i]),
                forall|i: int|
                    0 <= i < pixels.len() ==> rendered_pixel(
                        self.camera,
                        self.models@,
                        #[trigger] pixels[i],
                        i % (w as int),
                        (h as int) - 1 - i / (w as int),
                    ),
            decreases y,
        {
            y = y - 1;
            let mut x: usize = 0;
            proof {
                assert(((h - y) as int) * (w as int) == ((h - y - 1) as int) * (w as int) + (
                w as int)) by (nonlinear_arith);
                assert(((h - y - 1) as int) * (w as int) >= 0) by (nonlinear_arith)
                    requires
                        y < h,
                ;
            }
            while x < w
                invariant
                    x <= w,
                    y < h,
                    w == self.camera.image_width,
                    h == self.camera.image_height,
                    w <= i64::MAX,
                    h <= i64::MAX,
                    self.camera.samples_per_pixel <= i64::MAX,
                    (w as int) * (h as int) <= usize::MAX,
                    pixels.len() == ((h - y - 1) as int) * (w as int) + x as int,
                    ((h - y) as int) * (w as int) == ((h - y - 1) as int) * (w as int) + (
                    w as int),
                    ((h - y - 1) as int) * (w as int) >= 0,
                    forall|i: int| 0 <= i < pixels.len() ==> rgb_in_byte(#[trigger] pixels[i]),
                    forall|i: int|
                        0 <= i < pixels.len() ==> rendered_pixel(
                            self.camera,
                            self.models@,
                            #[trigger] pixels[i],
                            i % (w as int),
                            (h as int) - 1 - i / (w as int),
                        ),
                decreases w - x,
            {
                proof {
                    assert(((h - y) as int) * (w as int) <= (h as int) * (w as int))
                        by (nonlinear_arith)
                        requires
                            0 <= y < h,
                            0 < w,
                    ;
                    assert((h as int) * (w as int) == (w as int) * (h as int))
                        by (nonlinear_arith);
                }
                let rays = self.camera.rays(x, y, rng);
                let ghost mut cs: Seq<C3> = Seq::empty();
                let mut pixel_color = Color::black();
                let mut k: usize = 0;
                while k < rays.len()
                    invariant
                        k <= rays@.len(),
                        rays@.len() == self.camera.samples_per_pixel,
                        forall|j: int|
                            0 <= j < rays@.len() ==> ortho_ray_matches(
                                self.camera,
                                x as int,
                                y as int,
                                #[trigger] rays@[j],
                            ),
                        cs.len() == k,
                        pixel_color@ == c3_sum(cs),
                        forall|j: int|
                            0 <= j < cs.len() ==> admissible_sample(
                                self.camera,
                                self.models@,
                                #[trigger] cs[j],
                                x as int,
                                y as int,
                            ),
                    decreases rays.len() - k,
                {
                    let sample_color = self.color(rays[k], 0, rng);
                    proof {
                        let ghost prev = cs;
                        assert(ortho_ray_matches(self.camera, x as int, y as int, rays@[k as int]));
                        assert(radiance_ok(self.models@, rays@[k as int], sample_color@));
                        assert(admissible_sample(
                            self.camera,
                            self.models@,
                            sample_color@,
                            x as int,
                            y as int,
                        ));
                        cs = cs.push(sample_color@);
                        assert(cs.drop_last() =~= prev);
                    }
                    pixel_color = pixel_color.add(sample_color);
                    k = k + 1;
                }
                let spp = self.camera.get_samples_per_pixel();
                let px = Rgb {
                    r: quantize_channel(pixel_color.r, spp),
                    g: quantize_channel(pixel_color.g, spp),
                    b: quantize_channel(pixel_color.b, spp),
                };
                proof {
                    assert(cs.len() == self.camera.samples_per_pixel);
                    assert(rendered_pixel(self.camera, self.models@, px, x as int, y as int));
                    lemma_fundamental_div_mod_converse(
                        pixels@.len() as int,
                        w as int,
                        (h - y - 1) as int,
                        x as int,
                    );
                }
                pixels.push(px);
                x = x + 1;
            }
        }
        proof {
            assert((h as int) * (w as int) == (self.camera.image_height as int) * (
            self.camera.image_width as int));
        }
        pixels
    }
}

} // verus!
