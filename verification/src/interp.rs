//! Linear interpolation over an integer range.
//!
//! The independent variable is always an integer (a pixel coordinate); the
//! dependent variable is an integer quantity in whatever unit the caller
//! chose. The values in between are exact fractions.

use vstd::prelude::*;
use crate::ratio::{Frac, Ratio, lemma_trunc_div_monotonic, lemma_trunc_div_multiple};

verus! {

/// How many values the ramp from `i0` to `i1` holds: one for each integer
/// position from `i0` to `i1`, none when the range is reversed.
pub open spec fn ramp_len(i0: int, i1: int) -> nat {
    if i0 <= i1 {
        (i1 - i0 + 1) as nat
    } else {
        0
    }
}

/// The denominator shared by all values of a ramp.
pub open spec fn ramp_den(i0: int, i1: int) -> int {
    if i0 < i1 {
        i1 - i0
    } else {
        1
    }
}

/// The `k`-th value of the ramp that starts at `d0` and grows by
/// `(d1 - d0) / (i1 - i0)` per step.
pub open spec fn ramp_value(i0: int, d0: int, i1: int, d1: int, k: int) -> Frac {
    Frac { num: d0 * ramp_den(i0, i1) + k * (d1 - d0), den: ramp_den(i0, i1) }
}

/// The ramp as a whole: one value for each position from `i0` to `i1`.
pub open spec fn ramp(i0: int, d0: int, i1: int, d1: int) -> Seq<Frac> {
    Seq::new(ramp_len(i0, i1), |k: int| ramp_value(i0, d0, i1, d1, k))
}

/// The value of the ramp at position `i`, rounded towards zero.
pub open spec fn ramp_at(i0: int, d0: int, i1: int, d1: int, i: int) -> int {
    ramp_value(i0, d0, i1, d1, i - i0).trunc()
}

/// Every numerator of a ramp lies between the scaled endpoints, so a ramp is
/// a convex combination of `d0` and `d1`.
pub proof fn lemma_ramp_num_between(d0: int, d1: int, n: int, k: int, lo: int, hi: int)
    by (nonlinear_arith)
    requires
        0 <= k <= n,
        lo <= d0 <= hi,
        lo <= d1 <= hi,
    ensures
        lo * n <= d0 * n + k * (d1 - d0) <= hi * n,
{
    assert(d0 * n + k * (d1 - d0) == d0 * (n - k) + d1 * k);
    assert(lo * (n - k) <= d0 * (n - k) <= hi * (n - k));
    assert(lo * k <= d1 * k <= hi * k);
    assert(lo * n == lo * (n - k) + lo * k);
    assert(hi * n == hi * (n - k) + hi * k);
}

/// A 32-bit value scaled by the length of a 32-bit range fits in 64 bits.
proof fn lemma_scaled_fits(d: int, n: int)
    by (nonlinear_arith)
    requires
        -0x8000_0000 <= d <= 0x7fff_ffff,
        1 <= n <= 0xffff_ffff,
    ensures
        -0x7fff_ffff_8000_0000 <= -0x8000_0000 * n,
        0x7fff_ffff * n <= 0x7fff_ffff_0000_0000,
        -0x8000_0000 * n <= d * n <= 0x7fff_ffff * n,
{
}

/// More steps of a rising ramp rise further, and of a falling ramp fall further.
proof fn lemma_step_order(d0: int, d1: int, j: int, k: int)
    by (nonlinear_arith)
    requires
        j <= k,
    ensures
        d0 <= d1 ==> j * (d1 - d0) <= k * (d1 - d0),
        d0 >= d1 ==> j * (d1 - d0) >= k * (d1 - d0),
{
}

/// Scaling by a positive number keeps the order of two numbers.
proof fn lemma_scale_order(a: int, b: int, n: int)
    by (nonlinear_arith)
    requires
        n > 0,
    ensures
        a <= b ==> a * n <= b * n,
        a >= b ==> a * n >= b * n,
{
}

/// Every value of a ramp, rounded towards zero, lies between any bounds that
/// hold of both ends; the ramp starts at `d0` and, when it spans more than
/// one position, ends at `d1`.
pub proof fn lemma_ramp_at_between(i0: int, d0: int, i1: int, d1: int, i: int, lo: int, hi: int)
    requires
        i0 <= i <= i1,
        lo <= d0 <= hi,
        lo <= d1 <= hi,
    ensures
        lo <= ramp_at(i0, d0, i1, d1, i) <= hi,
        ramp_at(i0, d0, i1, d1, i0) == d0,
        i0 < i1 ==> ramp_at(i0, d0, i1, d1, i1) == d1,
{
    let n = ramp_den(i0, i1);
    lemma_ramp_num_between(d0, d1, n, i - i0, lo, hi);
    lemma_trunc_div_multiple(lo, n);
    lemma_trunc_div_multiple(hi, n);
    lemma_trunc_div_multiple(d0, n);
    lemma_trunc_div_multiple(d1, n);
    let num = ramp_value(i0, d0, i1, d1, i - i0).num;
    if i0 < i1 {
        lemma_trunc_div_monotonic(lo * n, num, n);
        lemma_trunc_div_monotonic(num, hi * n, n);
        assert(d0 * n + (i1 - i0) * (d1 - d0) == d1 * n) by (nonlinear_arith)
            requires
                n == i1 - i0,
        ;
    } else {
        assert(i == i0);
        assert(d0 * 1 + 0 * (d1 - d0) == d0);
        assert(lo * 1 == lo && hi * 1 == hi && d0 * 1 == d0);
    }
    assert(d0 * n + 0 * (d1 - d0) == d0 * n);
}

/// The linear ramp from `d0` at position `i0` to `d1` at position `i1`, one
/// exact value per integer position, both ends included.
///
/// A span of a single position yields just `d0`; a reversed range yields
/// nothing. The values are accumulated by adding the constant step to the
/// running value, and since they are exact the last one is `d1` itself.
pub fn interpolate(i0: i32, d0: i32, i1: i32, d1: i32) -> (values: Vec<Ratio>)
    ensures
        values.len() == ramp_len(i0 as int, i1 as int),
        forall|k: int|
            0 <= k < values.len() ==> (#[trigger] values[k])@ == ramp(
                i0 as int,
                d0 as int,
                i1 as int,
                d1 as int,
            )[k],
        forall|k: int| 0 <= k < values.len() ==> (#[trigger] values[k]).wf(),
        i0 == i1 ==> values@ == seq![Ratio { num: d0 as i64, den: 1 }],
        i0 <= i1 ==> values[0]@.is_int(d0 as int),
        i0 < i1 ==> values[i1 - i0]@.is_int(d1 as int),
        d0 <= d1 ==> forall|j: int, k: int|
            0 <= j <= k < values.len() ==> !(#[trigger] values[k])@.lt((#[trigger] values[j])@),
        d0 >= d1 ==> forall|j: int, k: int|
            0 <= j <= k < values.len() ==> !(#[trigger] values[j])@.lt((#[trigger] values[k])@),
{
    let mut values: Vec<Ratio> = Vec::new();
    if i0 == i1 {
        values.push(Ratio { num: d0 as i64, den: 1 });
        assert(values@ =~= seq![Ratio { num: d0 as i64, den: 1 }]);
        return values;
    }
    if i0 > i1 {
        return values;
    }
    let n: i64 = i1 as i64 - i0 as i64;
    let step: i64 = d1 as i64 - d0 as i64;
    proof {
        lemma_scaled_fits(d0 as int, n as int);
    }
    let mut d: i64 = d0 as i64 * n;
    let mut k: i64 = 0;
    while k <= n
        invariant
            i0 < i1,
            n == i1 - i0,
            step == d1 - d0,
            0 <= k <= n + 1,
            values.len() == k,
            k <= n ==> d == d0 * n + k * step,
            forall|j: int|
                0 <= j < k ==> {
                    &&& (#[trigger] values[j]).den == n
                    &&& values[j].num == d0 * n + j * step
                },
        decreases n + 1 - k,
    {
        values.push(Ratio { num: d, den: n });
        if k < n {
            proof {
                lemma_ramp_num_between(
                    d0 as int,
                    d1 as int,
                    n as int,
                    k + 1,
                    -0x8000_0000,
                    0x7fff_ffff,
                );
                lemma_scaled_fits(d0 as int, n as int);
                assert((k + 1) * step == k * step + step) by (nonlinear_arith);
            }
            d = d + step;
        }
        k = k + 1;
    }
    proof {
        assert(values[0].num == d0 * n + 0 * step);
        assert(values[n as int].num == d0 * n + n * step);
        assert(d0 * n + n * (d1 - d0) == d1 * n) by (nonlinear_arith);
        assert forall|j: int, k: int| 0 <= j <= k < values.len() implies (d0 <= d1 ==> !(
            #[trigger] values[k])@.lt((#[trigger] values[j])@)) && (d0 >= d1 ==> !values[j]@.lt(
            values[k]@,
        )) by {
            lemma_step_order(d0 as int, d1 as int, j, k);
            lemma_scale_order(values[j].num as int, values[k].num as int, n as int);
        }
    }
    values
}

} // verus!
