//! Exact fractions of machine integers.

use vstd::prelude::*;

verus! {

/// A mathematical fraction `num / den`.
pub struct Frac {
    pub num: int,
    pub den: int,
}

/// `num / den` rounded towards zero, for a positive `den`.
pub open spec fn trunc_div(num: int, den: int) -> int {
    if num >= 0 {
        num / den
    } else {
        -((-num) / den)
    }
}

impl Frac {
    /// The integer part of the fraction: its value rounded towards zero.
    pub open spec fn trunc(self) -> int {
        trunc_div(self.num, self.den)
    }

    /// Whether the fraction is strictly smaller than `other`, both having a
    /// positive denominator.
    pub open spec fn lt(self, other: Frac) -> bool {
        self.num * other.den < other.num * self.den
    }

    /// Whether the fraction has exactly the integer value `v`.
    pub open spec fn is_int(self, v: int) -> bool {
        self.num == v * self.den
    }
}

/// The fraction `num / den` in machine integers.
///
/// Interpolated quantities are kept as exact fractions with a positive
/// denominator, so that comparing two of them never depends on rounding.
#[derive(Debug, Clone, Copy, PartialEq, Eq, Structural)]
pub struct Ratio {
    pub num: i64,
    pub den: i64,
}

impl View for Ratio {
    type V = Frac;

    open spec fn view(&self) -> Frac {
        Frac { num: self.num as int, den: self.den as int }
    }
}

impl Ratio {
    /// A fraction is well formed when its denominator is positive.
    pub open spec fn wf(self) -> bool {
        self.den > 0
    }

    /// The whole number `v`, as a fraction over one.
    pub fn from_int(v: i32) -> (r: Ratio)
        ensures
            r.wf(),
            r@ == (Frac { num: v as int, den: 1 }),
    {
        Ratio { num: v as i64, den: 1 }
    }

    /// Rounds the fraction towards zero.
    pub fn trunc(&self) -> (t: i64)
        requires
            self.wf(),
        ensures
            t == self@.trunc(),
    {
        self.num / self.den
    }

    /// Exact strict comparison of two fractions by cross-multiplication.
    pub fn less_than(&self, other: &Ratio) -> (b: bool)
        ensures
            b == self@.lt(other@),
    {
        let a: i64 = self.num;
        let b: i64 = other.den;
        let c: i64 = other.num;
        let d: i64 = self.den;
        proof {
            lemma_product_fits(a as int, b as int);
            lemma_product_fits(c as int, d as int);
        }
        (a as i128) * (b as i128) < (c as i128) * (d as i128)
    }
}

/// The product of two 64-bit integers fits in 128 bits.
proof fn lemma_product_fits(a: int, b: int)
    by (nonlinear_arith)
    requires
        -0x8000_0000_0000_0000 <= a < 0x8000_0000_0000_0000,
        -0x8000_0000_0000_0000 <= b < 0x8000_0000_0000_0000,
    ensures
        -0x4000_0000_0000_0000_0000_0000_0000_0000 <= a * b
            <= 0x4000_0000_0000_0000_0000_0000_0000_0000,
{
}

/// Rounding towards zero inverts multiplication by the denominator.
pub proof fn lemma_trunc_div_multiple(v: int, den: int)
    requires
        den > 0,
    ensures
        trunc_div(v * den, den) == v,
{
    if v >= 0 {
        assert(v * den >= 0) by (nonlinear_arith)
            requires
                v >= 0,
                den > 0,
        ;
        assert((v * den) / den == v) by (nonlinear_arith)
            requires
                den > 0,
        ;
    } else {
        assert(v * den < 0) by (nonlinear_arith)
            requires
                v < 0,
                den > 0,
        ;
        assert(-(v * den) == (-v) * den) by (nonlinear_arith);
        assert(((-v) * den) / den == -v) by (nonlinear_arith)
            requires
                den > 0,
        ;
    }
}

/// Rounding towards zero is monotonic in the numerator.
pub proof fn lemma_trunc_div_monotonic(a: int, b: int, den: int)
    requires
        den > 0,
        a <= b,
    ensures
        trunc_div(a, den) <= trunc_div(b, den),
{
    if a >= 0 {
        assert(a / den <= b / den) by (nonlinear_arith)
            requires
                den > 0,
                0 <= a <= b,
        ;
    } else if b < 0 {
        assert((-b) / den <= (-a) / den) by (nonlinear_arith)
            requires
                den > 0,
                0 < -b <= -a,
        ;
    } else {
        assert((-a) / den >= 0) by (nonlinear_arith)
            requires
                den > 0,
                -a > 0,
        ;
        assert(b / den >= 0) by (nonlinear_arith)
            requires
                den > 0,
                b >= 0,
        ;
    }
}

} // verus!
