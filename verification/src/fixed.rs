//! Fixed-point numbers: the real quantities of the pipeline.

use vstd::prelude::*;
use crate::ratio::trunc_div;

verus! {

/// The raw value of the number one: a `Fixed` counts in units of `1 / 65536`.
pub const ONE_RAW: i32 = 65536;

/// The largest raw value that arithmetic yields; the smallest is its negative.
pub const MAX_RAW: i32 = 0x7fff_ffff;

/// A real number in fixed point, with sixteen fractional bits: the number
/// `raw / 65536`.
///
/// Arithmetic rounds towards zero and saturates: a result too large for the
/// type becomes the largest value of its sign.
#[derive(Debug, Clone, Copy, PartialEq, Eq, Structural)]
pub struct Fixed {
    pub raw: i32,
}

/// `v`, held to the range of raw values that arithmetic yields.
pub open spec fn saturate(v: int) -> int {
    if v < -MAX_RAW {
        -MAX_RAW as int
    } else if v > MAX_RAW {
        MAX_RAW as int
    } else {
        v
    }
}

/// The raw product of two raw values.
pub open spec fn times_raw(a: int, b: int) -> int {
    saturate(trunc_div(a * b, ONE_RAW as int))
}

/// The raw quotient of two raw values, the second not zero.
pub open spec fn over_raw(a: int, b: int) -> int {
    if b > 0 {
        saturate(trunc_div(a * ONE_RAW, b))
    } else {
        saturate(trunc_div(-(a * ONE_RAW), -b))
    }
}

/// The product of two 32-bit integers fits in 64 bits with room to spare.
pub proof fn lemma_raw_product_fits(a: int, b: int)
    by (nonlinear_arith)
    requires
        -0x8000_0000 <= a <= 0x7fff_ffff,
        -0x8000_0000 <= b <= 0x7fff_ffff,
    ensures
        -0x4000_0000_0000_0000 < a * b <= 0x4000_0000_0000_0000,
{
}

impl Fixed {
    /// A number is well formed when its negative can be held too.
    pub open spec fn wf(self) -> bool {
        self.raw >= -MAX_RAW
    }

    /// The product of two numbers.
    pub open spec fn times_spec(self, rhs: Fixed) -> Fixed {
        Fixed { raw: times_raw(self.raw as int, rhs.raw as int) as i32 }
    }

    /// The negative of the number.
    pub open spec fn neg_spec(self) -> Fixed {
        Fixed { raw: saturate(-self.raw) as i32 }
    }

    /// The number zero.
    pub fn zero() -> (r: Fixed)
        ensures
            r.raw == 0,
    {
        Fixed { raw: 0 }
    }

    /// The number one.
    pub fn one() -> (r: Fixed)
        ensures
            r.raw == ONE_RAW,
    {
        Fixed { raw: ONE_RAW }
    }

    /// The value nearest to `v` among those the type holds, for a value
    /// given in raw units.
    pub fn saturating(v: i128) -> (r: Fixed)
        ensures
            r.raw == saturate(v as int),
            r.wf(),
    {
        if v < -(MAX_RAW as i128) {
            Fixed { raw: -MAX_RAW }
        } else if v > MAX_RAW as i128 {
            Fixed { raw: MAX_RAW }
        } else {
            Fixed { raw: v as i32 }
        }
    }

    /// The whole number `v`.
    pub fn from_int(v: i32) -> (r: Fixed)
        ensures
            r.raw == saturate(v * ONE_RAW),
            r.wf(),
    {
        Fixed::saturating(v as i128 * ONE_RAW as i128)
    }

    /// The fraction `num / den`, rounded towards zero; nothing when `den` is zero.
    pub fn from_ratio(num: i32, den: i32) -> (r: Option<Fixed>)
        ensures
            r is Some <==> den != 0,
            r matches Some(f) ==> f.raw == over_raw(num as int, den as int) && f.wf(),
    {
        Fixed { raw: num }.divided_by(Fixed { raw: den })
    }

    /// The negative of the number.
    pub fn neg(self) -> (r: Fixed)
        ensures
            r == self.neg_spec(),
            r.raw == saturate(-self.raw),
            r.wf(),
    {
        Fixed::saturating(-(self.raw as i128))
    }

    /// The sum of two numbers.
    pub fn plus(self, rhs: Fixed) -> (r: Fixed)
        ensures
            r.raw == saturate(self.raw + rhs.raw),
            r.wf(),
    {
        Fixed::saturating(self.raw as i128 + rhs.raw as i128)
    }

    /// The difference of two numbers.
    pub fn minus(self, rhs: Fixed) -> (r: Fixed)
        ensures
            r.raw == saturate(self.raw - rhs.raw),
            r.wf(),
    {
        Fixed::saturating(self.raw as i128 - rhs.raw as i128)
    }

    /// The product of two numbers.
    pub fn times(self, rhs: Fixed) -> (r: Fixed)
        ensures
            r == self.times_spec(rhs),
            r.raw == times_raw(self.raw as int, rhs.raw as int),
            r.wf(),
    {
        proof {
            lemma_raw_product_fits(self.raw as int, rhs.raw as int);
        }
        let wide: i64 = self.raw as i64 * rhs.raw as i64;
        Fixed::saturating((wide / ONE_RAW as i64) as i128)
    }

    /// The quotient of two numbers; nothing when `rhs` is zero.
    pub fn divided_by(self, rhs: Fixed) -> (r: Option<Fixed>)
        ensures
            r is Some <==> rhs.raw != 0,
            r matches Some(q) ==> q.raw == over_raw(self.raw as int, rhs.raw as int) && q.wf(),
    {
        if rhs.raw == 0 {
            return None;
        }
        proof {
            lemma_raw_product_fits(self.raw as int, ONE_RAW as int);
        }
        let wide: i64 = self.raw as i64 * ONE_RAW as i64;
        if rhs.raw > 0 {
            Some(Fixed::saturating((wide / rhs.raw as i64) as i128))
        } else {
            Some(Fixed::saturating(((-wide) / (-(rhs.raw as i64))) as i128))
        }
    }

    /// The integer part of the number.
    pub fn trunc(self) -> (t: i32)
        ensures
            t == trunc_div(self.raw as int, ONE_RAW as int),
    {
        self.raw / ONE_RAW
    }
}

} // verus!
