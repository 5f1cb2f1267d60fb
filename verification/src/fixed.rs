//! Fixed-point scalars.
//!
//! Every coordinate, colour channel and ray parameter in this crate is an
//! `Fx`: a signed 64-bit integer understood as a binary fixed-point number
//! with `SCALE` as the unit (so `raw == SCALE` means one, `raw == SCALE / 2`
//! means one half).  All operations are total:
//!
//! - results that would leave the representable range saturate to
//!   `FX_MAX` / `-FX_MAX` (the counterpart of an infinity),
//! - division by zero yields zero,
//! - the square root of a negative number yields zero.
//!
//! Multiplication, division and square root truncate toward zero.  Each
//! executable operation is pinned to a spec-level counterpart (`fx_add`,
//! `fx_mul`, ...), so everything built on top of `Fx` has an exact,
//! deterministic mathematical description.

use vstd::prelude::*;

verus! {

use vstd::arithmetic::div_mod::{lemma_div_by_multiple, lemma_div_is_ordered, lemma_div_pos_is_pos};

/// The fixed-point unit: raw values count in steps of `1 / SCALE`.
pub const SCALE: i64 = 65536;

/// Saturation bound.  It is symmetric (`i64::MIN` is never produced), so
/// negation and absolute value are total on every result of an operation.
pub const FX_MAX: i64 = i64::MAX;

/// Clamp a mathematical integer into the representable raw range.
pub open spec fn sat(x: int) -> int {
    if x > FX_MAX as int {
        FX_MAX as int
    } else if x < -(FX_MAX as int) {
        -(FX_MAX as int)
    } else {
        x
    }
}

/// Magnitude of a mathematical integer.
pub open spec fn mag(a: int) -> int {
    if a >= 0 {
        a
    } else {
        -a
    }
}

/// Division truncating toward zero (the rounding the executable code uses):
/// the magnitudes are divided (`/` on nonnegative integers is flooring) and
/// the usual sign rule is applied.
pub open spec fn tdiv(a: int, b: int) -> int {
    if (a >= 0) == (b >= 0) {
        mag(a) / mag(b)
    } else {
        -(mag(a) / mag(b))
    }
}

/// Raw-value sum, saturated.
pub open spec fn fx_add(a: int, b: int) -> int {
    sat(a + b)
}

/// Raw-value difference, saturated.
pub open spec fn fx_sub(a: int, b: int) -> int {
    sat(a - b)
}

/// Raw-value negation, saturated.
pub open spec fn fx_neg(a: int) -> int {
    sat(-a)
}

/// Fixed-point product: `a * b / SCALE`, truncated toward zero, saturated.
pub open spec fn fx_mul(a: int, b: int) -> int {
    sat(tdiv(a * b, SCALE as int))
}

/// Fixed-point quotient: `a * SCALE / b`, truncated toward zero, saturated.
/// A zero divisor yields zero.
pub open spec fn fx_div(a: int, b: int) -> int {
    if b == 0 {
        0
    } else {
        sat(tdiv(a * (SCALE as int), b))
    }
}

/// `r` is the integer square root of `n`.
pub open spec fn is_sqrt(n: int, r: int) -> bool {
    0 <= r && r * r <= n && n < (r + 1) * (r + 1)
}

/// The integer square root, as a function.  `lemma_sqrt_of` pins it to any
/// witness, so it is uniquely determined on nonnegative arguments.
pub open spec fn sqrt_of(n: int) -> int {
    choose|r: int| is_sqrt(n, r)
}

/// Fixed-point square root: the integer square root of `a * SCALE`
/// (truncated toward zero).  Nonpositive arguments yield zero.
pub open spec fn fx_sqrt(a: int) -> int {
    if a <= 0 {
        0
    } else {
        sqrt_of(a * (SCALE as int))
    }
}

/// The integer square root is unique, so `sqrt_of` equals any witness.
pub proof fn lemma_sqrt_of(n: int, r: int)
    requires
        is_sqrt(n, r),
    ensures
        sqrt_of(n) == r,
{
    assert(exists|q: int| is_sqrt(n, q)) by {
        assert(is_sqrt(n, r));
    }
    let q = sqrt_of(n);
    assert(is_sqrt(n, q));
    assert(q == r) by (nonlinear_arith)
        requires
            is_sqrt(n, q),
            is_sqrt(n, r),
    ;
}

/// Multiplication by a factor within [0, 1] attenuates: the fixed-point
/// product of `a` in [0, 1] and a nonnegative `b` lies between zero and
/// `b`.  This is the arithmetic heart of energy non-creation: no material
/// whose attenuation components lie in [0, 1] can brighten a channel.
pub proof fn lemma_fx_mul_attenuates(a: int, b: int)
    requires
        0 <= a <= SCALE as int,
        0 <= b <= FX_MAX as int,
    ensures
        0 <= fx_mul(a, b) <= b,
{
    assert(0 <= a * b && a * b <= (SCALE as int) * b) by (nonlinear_arith)
        requires
            0 <= a <= SCALE as int,
            0 <= b,
    ;
    lemma_div_pos_is_pos(a * b, SCALE as int);
    lemma_div_is_ordered(a * b, (SCALE as int) * b, SCALE as int);
    lemma_div_by_multiple(b, SCALE as int);
    assert(tdiv(a * b, SCALE as int) == (a * b) / (SCALE as int));
}

/// Truncating division by a positive divisor is monotone in the numerator.
pub proof fn lemma_tdiv_is_ordered(x: int, y: int, d: int)
    requires
        x <= y,
        0 < d,
    ensures
        tdiv(x, d) <= tdiv(y, d),
{
    if x >= 0 {
        lemma_div_is_ordered(x, y, d);
    } else if y >= 0 {
        lemma_div_pos_is_pos(-x, d);
        lemma_div_pos_is_pos(y, d);
    } else {
        lemma_div_is_ordered(-y, -x, d);
    }
}

/// The sign of a truncating quotient follows the sign rule of its
/// operands.
pub proof fn lemma_tdiv_sign(a: int, b: int)
    requires
        b != 0,
    ensures
        (a >= 0) == (b >= 0) ==> tdiv(a, b) >= 0,
        (a >= 0) != (b >= 0) ==> tdiv(a, b) <= 0,
{
    lemma_div_pos_is_pos(mag(a), mag(b));
}

/// Every nonnegative integer has an integer square root.
pub proof fn lemma_sqrt_exists(n: int)
    requires
        0 <= n,
    ensures
        exists|r: int| is_sqrt(n, r),
    decreases n,
{
    if n == 0 {
        assert(is_sqrt(0, 0));
    } else {
        let m: int = n - 1;
        lemma_sqrt_exists(m);
        let r = choose|r: int| is_sqrt(m, r);
        if (r + 1) * (r + 1) <= n {
            assert(is_sqrt(n, r + 1)) by (nonlinear_arith)
                requires
                    is_sqrt(n - 1, r),
                    (r + 1) * (r + 1) <= n,
            ;
        } else {
            assert(is_sqrt(n, r));
        }
    }
}

/// The fixed-point square root is never negative.
pub proof fn lemma_fx_sqrt_nonneg(a: int)
    ensures
        fx_sqrt(a) >= 0,
{
    if a > 0 {
        lemma_sqrt_exists(a * (SCALE as int));
        assert(is_sqrt(a * (SCALE as int), sqrt_of(a * (SCALE as int))));
    }
}

/// The fixed-point square root of a value within [0, 1] lies within
/// [0, 1].
pub proof fn lemma_fx_sqrt_unit(a: int)
    requires
        0 <= a <= SCALE as int,
    ensures
        0 <= fx_sqrt(a) <= SCALE as int,
{
    if a > 0 {
        lemma_sqrt_exists(a * (SCALE as int));
        let r = sqrt_of(a * (SCALE as int));
        assert(is_sqrt(a * (SCALE as int), r));
        assert(r <= SCALE as int) by (nonlinear_arith)
            requires
                is_sqrt(a * (SCALE as int), r),
                0 < a <= SCALE as int,
        ;
    }
}

/// A fixed-point number; see the module documentation for the format.
#[derive(Clone, Copy, Debug, PartialEq, Eq, Structural)]
pub struct Fx {
    pub raw: i64,
}

/// Saturate a wide intermediate into the raw range.
fn clamp_raw(x: i128) -> (r: i64)
    ensures
        r as int == sat(x as int),
{
    if x > FX_MAX as i128 {
        FX_MAX
    } else if x < -(FX_MAX as i128) {
        -FX_MAX
    } else {
        x as i64
    }
}

/// Wide division truncating toward zero, via the magnitudes.
fn div_trunc(a: i128, b: i128) -> (q: i128)
    requires
        b != 0,
        a > i128::MIN,
        b > i128::MIN,
    ensures
        q == tdiv(a as int, b as int),
{
    let am: i128 = if a < 0 { -a } else { a };
    let bm: i128 = if b < 0 { -b } else { b };
    let qm: i128 = am / bm;
    if (a < 0) != (b < 0) {
        -qm
    } else {
        qm
    }
}

/// Products of two raw values fit the wide intermediate type.
proof fn lemma_raw_product_in_i128(a: int, b: int)
    by (nonlinear_arith)
    requires
        i64::MIN <= a <= i64::MAX,
        i64::MIN <= b <= i64::MAX,
    ensures
        i128::MIN < a * b < i128::MAX,
{
}

impl Fx {
    /// The raw (scaled) representation of this number.
    pub open spec fn view(self) -> int {
        self.raw as int
    }

    pub fn from_raw(raw: i64) -> (r: Fx)
        ensures
            r.raw == raw,
    {
        Fx { raw }
    }

    /// The fixed-point image of an integer, saturated.
    pub fn from_int(n: i64) -> (r: Fx)
        ensures
            r.raw == sat(n * (SCALE as int)),
    {
        proof {
            lemma_raw_product_in_i128(n as int, SCALE as int);
        }
        Fx { raw: clamp_raw((n as i128) * (SCALE as i128)) }
    }

    /// The fixed-point image of the fraction `n / d`.
    pub fn from_ratio(n: i64, d: i64) -> (r: Fx)
        ensures
            r.raw == fx_div(sat(n * (SCALE as int)), sat(d * (SCALE as int))),
    {
        Fx::from_int(n).div(Fx::from_int(d))
    }

    pub fn zero() -> (r: Fx)
        ensures
            r.raw == 0,
    {
        Fx { raw: 0 }
    }

    pub fn one() -> (r: Fx)
        ensures
            r.raw == SCALE,
    {
        Fx { raw: SCALE }
    }

    pub fn add(self, rhs: Fx) -> (r: Fx)
        ensures
            r.raw == fx_add(self.raw as int, rhs.raw as int),
    {
        Fx { raw: clamp_raw(self.raw as i128 + rhs.raw as i128) }
    }

    pub fn sub(self, rhs: Fx) -> (r: Fx)
        ensures
            r.raw == fx_sub(self.raw as int, rhs.raw as int),
    {
        Fx { raw: clamp_raw(self.raw as i128 - rhs.raw as i128) }
    }

    pub fn neg(self) -> (r: Fx)
        ensures
            r.raw == fx_neg(self.raw as int),
    {
        Fx { raw: clamp_raw(-(self.raw as i128)) }
    }

    pub fn mul(self, rhs: Fx) -> (r: Fx)
        ensures
            r.raw == fx_mul(self.raw as int, rhs.raw as int),
    {
        proof {
            lemma_raw_product_in_i128(self.raw as int, rhs.raw as int);
        }
        let wide: i128 = (self.raw as i128) * (rhs.raw as i128);
        Fx { raw: clamp_raw(div_trunc(wide, SCALE as i128)) }
    }

    pub fn div(self, rhs: Fx) -> (r: Fx)
        ensures
            r.raw == fx_div(self.raw as int, rhs.raw as int),
    {
        if rhs.raw == 0 {
            Fx { raw: 0 }
        } else {
            proof {
                lemma_raw_product_in_i128(self.raw as int, SCALE as int);
            }
            let wide: i128 = (self.raw as i128) * (SCALE as i128);
            Fx { raw: clamp_raw(div_trunc(wide, rhs.raw as i128)) }
        }
    }

    pub fn sqrt(self) -> (r: Fx)
        ensures
            r.raw == fx_sqrt(self.raw as int),
    {
        if self.raw <= 0 {
            Fx { raw: 0 }
        } else {
            proof {
                lemma_raw_product_in_i128(self.raw as int, SCALE as int);
            }
            let n: u128 = (self.raw as u128) * (SCALE as u128);
            let q = isqrt_u128(n);
            proof {
                lemma_sqrt_of(n as int, q as int);
                assert((q as int) < 0x20000000000) by (nonlinear_arith)
                    requires
                        0 <= q as int,
                        (q as int) * (q as int) <= (n as int),
                        (n as int) <= 0x7fffffffffffffff * 0x10000,
                ;
            }
            Fx { raw: q as i64 }
        }
    }

    pub fn lt(self, rhs: Fx) -> (r: bool)
        ensures
            r == (self.raw < rhs.raw),
    {
        self.raw < rhs.raw
    }

    pub fn le(self, rhs: Fx) -> (r: bool)
        ensures
            r == (self.raw <= rhs.raw),
    {
        self.raw <= rhs.raw
    }
}

/// Floor of the square root, by bisection.
fn isqrt_u128(n: u128) -> (r: u128)
    ensures
        is_sqrt(n as int, r as int),
{
    let mut lo: u128 = 0;
    let mut hi: u128 = 0x1_0000_0000_0000_0000;
    proof {
        assert((0x1_0000_0000_0000_0000 as int) * (0x1_0000_0000_0000_0000 as int)
            > u128::MAX as int) by (nonlinear_arith);
    }
    while lo + 1 < hi
        invariant
            lo < hi <= 0x1_0000_0000_0000_0000,
            lo * lo <= n,
            (n as int) < (hi as int) * (hi as int),
        decreases hi - lo,
    {
        let mid: u128 = lo + (hi - lo) / 2;
        proof {
            assert(mid < 0x1_0000_0000_0000_0000 ==> mid * mid <= u128::MAX) by (nonlinear_arith);
        }
        if mid * mid <= n {
            lo = mid;
        } else {
            hi = mid;
        }
    }
    lo
}

} // verus!
