//! Colors: red, green and blue channels as fixed-point values in [0, 1]
//! for displayable colors (intermediate sums may exceed 1; the render loop
//! clamps before quantizing — see `scene`).

use vstd::prelude::*;

use crate::fixed::{fx_add, fx_div, fx_mul, fx_sub, lemma_fx_mul_attenuates, Fx, FX_MAX, SCALE};
use crate::vector::{v3_in_unit, Vector, V3};

verus! {

/// The mathematical image of a `Color`: its raw channels as integers.
pub struct C3 {
    pub r: int,
    pub g: int,
    pub b: int,
}

pub open spec fn c3_add(a: C3, b: C3) -> C3 {
    C3 { r: fx_add(a.r, b.r), g: fx_add(a.g, b.g), b: fx_add(a.b, b.b) }
}

/// Every channel divided by the same scalar.
pub open spec fn c3_div(a: C3, t: int) -> C3 {
    C3 { r: fx_div(a.r, t), g: fx_div(a.g, t), b: fx_div(a.b, t) }
}

/// Componentwise attenuation of a color by a vector of channel factors.
pub open spec fn c3_attenuate(a: C3, v: V3) -> C3 {
    C3 { r: fx_mul(a.r, v.x), g: fx_mul(a.g, v.y), b: fx_mul(a.b, v.z) }
}

/// Linear interpolation `(1 - t) * start + t * end`, channel by channel.
pub open spec fn c3_blend(t: int, start: C3, end: C3) -> C3 {
    C3 {
        r: fx_add(fx_mul(fx_sub(SCALE as int, t), start.r), fx_mul(t, end.r)),
        g: fx_add(fx_mul(fx_sub(SCALE as int, t), start.g), fx_mul(t, end.g)),
        b: fx_add(fx_mul(fx_sub(SCALE as int, t), start.b), fx_mul(t, end.b)),
    }
}

/// A raw value clamped into the displayable channel range [0, 1].
pub open spec fn clamp_unit_raw(a: int) -> int {
    if a < 0 {
        0
    } else if a > SCALE as int {
        SCALE as int
    } else {
        a
    }
}

/// All channels within [0, 1].
pub open spec fn c3_in_unit(a: C3) -> bool {
    0 <= a.r <= SCALE as int && 0 <= a.g <= SCALE as int && 0 <= a.b <= SCALE as int
}

/// Energy non-creation: attenuating a color whose channels are nonnegative
/// by factors within [0, 1] never raises a channel beyond its pre-bounce
/// value.  This is what makes the recursive radiance composition shrink,
/// bounce after bounce, for Lambertian and Metal albedos within [0, 1].
pub proof fn lemma_attenuate_non_amplifying(c: C3, v: V3)
    requires
        v3_in_unit(v),
        0 <= c.r <= FX_MAX as int,
        0 <= c.g <= FX_MAX as int,
        0 <= c.b <= FX_MAX as int,
    ensures
        0 <= c3_attenuate(c, v).r <= c.r,
        0 <= c3_attenuate(c, v).g <= c.g,
        0 <= c3_attenuate(c, v).b <= c.b,
{
    assert(fx_mul(c.r, v.x) == fx_mul(v.x, c.r));
    assert(fx_mul(c.g, v.y) == fx_mul(v.y, c.g));
    assert(fx_mul(c.b, v.z) == fx_mul(v.z, c.b));
    lemma_fx_mul_attenuates(v.x, c.r);
    lemma_fx_mul_attenuates(v.y, c.g);
    lemma_fx_mul_attenuates(v.z, c.b);
}

/// An RGB color.
#[derive(Clone, Copy, Debug, PartialEq, Eq, Structural)]
pub struct Color {
    pub r: Fx,
    pub g: Fx,
    pub b: Fx,
}

impl Color {
    pub open spec fn view(self) -> C3 {
        C3 { r: self.r.raw as int, g: self.g.raw as int, b: self.b.raw as int }
    }

    pub fn new(r: Fx, g: Fx, b: Fx) -> (c: Color)
        ensures
            c == (Color { r, g, b }),
    {
        Color { r, g, b }
    }

    pub fn black() -> (c: Color)
        ensures
            c@ == (C3 { r: 0, g: 0, b: 0 }),
    {
        Color { r: Fx::zero(), g: Fx::zero(), b: Fx::zero() }
    }

    /// Linear interpolation between two colors.
    pub fn blend(t: Fx, start: Color, end: Color) -> (c: Color)
        ensures
            c@ == c3_blend(t.raw as int, start@, end@),
    {
        let u = Fx::one().sub(t);
        Color {
            r: u.mul(start.r).add(t.mul(end.r)),
            g: u.mul(start.g).add(t.mul(end.g)),
            b: u.mul(start.b).add(t.mul(end.b)),
        }
    }

    pub fn add(self, rhs: Color) -> (c: Color)
        ensures
            c@ == c3_add(self@, rhs@),
    {
        Color { r: self.r.add(rhs.r), g: self.g.add(rhs.g), b: self.b.add(rhs.b) }
    }

    /// Every channel divided by the same scalar.
    pub fn div_scalar(self, t: Fx) -> (c: Color)
        ensures
            c@ == c3_div(self@, t.raw as int),
    {
        Color { r: self.r.div(t), g: self.g.div(t), b: self.b.div(t) }
    }

    /// Componentwise attenuation by a vector of channel factors.
    pub fn attenuate(self, v: Vector) -> (c: Color)
        ensures
            c@ == c3_attenuate(self@, v@),
    {
        Color { r: self.r.mul(v.x), g: self.g.mul(v.y), b: self.b.mul(v.z) }
    }

    /// Channels clamped into the displayable range [0, 1].
    pub fn clamp_unit(self) -> (c: Color)
        ensures
            c@ == (C3 {
                r: clamp_unit_raw(self.r.raw as int),
                g: clamp_unit_raw(self.g.raw as int),
                b: clamp_unit_raw(self.b.raw as int),
            }),
            c3_in_unit(c@),
    {
        Color {
            r: clamp_channel(self.r),
            g: clamp_channel(self.g),
            b: clamp_channel(self.b),
        }
    }
}

/// A scalar clamped into the displayable channel range [0, 1].
pub fn clamp_channel(a: Fx) -> (r: Fx)
    ensures
        r.raw == clamp_unit_raw(a.raw as int),
{
    if a.raw < 0 {
        Fx::zero()
    } else if a.raw > SCALE {
        Fx::one()
    } else {
        a
    }
}

} // verus!
