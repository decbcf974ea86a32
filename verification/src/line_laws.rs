//! What holds of every line.

use vstd::prelude::*;
use crate::interp::{lemma_ramp_at_between, ramp_at, ramp_value};
use crate::point::Point2;
use crate::raster::{abs, on_line, x_major};
use crate::ratio::trunc_div;

verus! {

/// Two fractions over the same denominator that differ by at most one have
/// integer parts that differ by at most one.
proof fn lemma_trunc_div_step(a: int, b: int, den: int)
    requires
        den > 0,
        a <= b <= a + den,
    ensures
        trunc_div(a, den) <= trunc_div(b, den) <= trunc_div(a, den) + 1,
{
    if a >= 0 {
        assert(a / den <= b / den <= a / den + 1) by (nonlinear_arith)
            requires
                den > 0,
                0 <= a <= b <= a + den,
        ;
    } else if b < 0 {
        assert((-b) / den <= (-a) / den <= (-b) / den + 1) by (nonlinear_arith)
            requires
                den > 0,
                0 < -b <= -a <= -b + den,
        ;
    } else {
        assert((-a) / den == 0 || (-a) / den == 1) by (nonlinear_arith)
            requires
                den > 0,
                0 < -a <= den,
        ;
        assert(b / den == 0 || ((-a) / den == 0 && b / den == 1)) by (nonlinear_arith)
            requires
                den > 0,
                0 <= b <= a + den,
                a < 0,
        ;
    }
}

/// A ramp that rises or falls by no more than one per step, and so by no
/// more in all than it has steps, changes its integer part by at most one
/// from step to step.
proof fn lemma_ramp_at_step(i0: int, d0: int, i1: int, d1: int, i: int)
    requires
        i0 <= i < i1,
        abs(d1 - d0) <= i1 - i0,
    ensures
        abs(ramp_at(i0, d0, i1, d1, i + 1) - ramp_at(i0, d0, i1, d1, i)) <= 1,
{
    let n = i1 - i0;
    let k = i - i0;
    let here = ramp_value(i0, d0, i1, d1, k).num;
    let next = ramp_value(i0, d0, i1, d1, k + 1).num;
    assert(next == here + (d1 - d0)) by (nonlinear_arith)
        requires
            here == d0 * n + k * (d1 - d0),
            next == d0 * n + (k + 1) * (d1 - d0),
    ;
    if d0 <= d1 {
        lemma_trunc_div_step(here, next, n);
    } else {
        lemma_trunc_div_step(next, here, n);
    }
}

/// A line holds the same pixels from whichever end it is drawn.
pub proof fn lemma_line_symmetric(p0: Point2, p1: Point2, x: int, y: int)
    ensures
        on_line(p0, p1, x, y) == on_line(p1, p0, x, y),
{
}

/// A ramp over a forward range starts at `d0` and, when it spans more than
/// one position, ends at `d1`.
proof fn lemma_ramp_at_ends(i0: int, d0: int, i1: int, d1: int)
    requires
        i0 <= i1,
    ensures
        ramp_at(i0, d0, i1, d1, i0) == d0,
        i0 < i1 ==> ramp_at(i0, d0, i1, d1, i1) == d1,
{
    let lo = if d0 <= d1 {
        d0
    } else {
        d1
    };
    let hi = if d0 <= d1 {
        d1
    } else {
        d0
    };
    lemma_ramp_at_between(i0, d0, i1, d1, i0, lo, hi);
}

/// A line holds both of its endpoints.
pub proof fn lemma_line_ends(p0: Point2, p1: Point2)
    ensures
        on_line(p0, p1, p0.x as int, p0.y as int),
        on_line(p0, p1, p1.x as int, p1.y as int),
{
    if x_major(p0, p1) {
        if p0.x > p1.x {
            lemma_ramp_at_ends(p1.x as int, p1.y as int, p0.x as int, p0.y as int);
        } else {
            lemma_ramp_at_ends(p0.x as int, p0.y as int, p1.x as int, p1.y as int);
        }
    } else {
        if p0.y > p1.y {
            lemma_ramp_at_ends(p1.y as int, p1.x as int, p0.y as int, p0.x as int);
        } else {
            lemma_ramp_at_ends(p0.y as int, p0.x as int, p1.y as int, p1.x as int);
        }
    }
}

/// A line has no gaps: it holds exactly one pixel in each column, or row,
/// between its ends along the axis on which it is walked, and the pixels of
/// neighbouring columns, or rows, touch.
pub proof fn lemma_line_connected(p0: Point2, p1: Point2)
    ensures
        forall|x: int, y: int, x2: int, y2: int|
            #![trigger on_line(p0, p1, x, y), on_line(p0, p1, x2, y2)]
            x_major(p0, p1) && on_line(p0, p1, x, y) && on_line(p0, p1, x2, y2) ==> (x2 == x
                ==> y2 == y) && (x2 == x + 1 ==> abs(y2 - y) <= 1),
        forall|x: int, y: int, x2: int, y2: int|
            #![trigger on_line(p0, p1, x, y), on_line(p0, p1, x2, y2)]
            !x_major(p0, p1) && on_line(p0, p1, x, y) && on_line(p0, p1, x2, y2) ==> (y2 == y
                ==> x2 == x) && (y2 == y + 1 ==> abs(x2 - x) <= 1),
{
    if x_major(p0, p1) {
        let (a, b) = if p0.x > p1.x {
            (p1, p0)
        } else {
            (p0, p1)
        };
        assert forall|x: int, y: int, x2: int, y2: int|
            #![trigger on_line(p0, p1, x, y), on_line(p0, p1, x2, y2)]
            on_line(p0, p1, x, y) && on_line(p0, p1, x2, y2) implies (x2 == x ==> y2 == y) && (x2
            == x + 1 ==> abs(y2 - y) <= 1) by {
            if x2 == x + 1 {
                lemma_ramp_at_step(a.x as int, a.y as int, b.x as int, b.y as int, x);
            }
        }
    } else {
        let (a, b) = if p0.y > p1.y {
            (p1, p0)
        } else {
            (p0, p1)
        };
        assert forall|x: int, y: int, x2: int, y2: int|
            #![trigger on_line(p0, p1, x, y), on_line(p0, p1, x2, y2)]
            on_line(p0, p1, x, y) && on_line(p0, p1, x2, y2) implies (y2 == y ==> x2 == x) && (y2
            == y + 1 ==> abs(x2 - x) <= 1) by {
            if y2 == y + 1 {
                lemma_ramp_at_step(a.y as int, a.x as int, b.y as int, b.x as int, y);
            }
        }
    }
}

} // verus!
