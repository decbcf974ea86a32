//! Filled triangles, painted one horizontal span per row.

use vstd::prelude::*;
use crate::canvas::{Canvas, RasterizationError};
use crate::interp::{interpolate, lemma_ramp_at_between, ramp_value};
use crate::point::Point2;
use crate::ratio::{Frac, Ratio};

verus! {

/// The three vertices in ascending order of `y`, as three compare-and-swap
/// steps leave them: first and second, then first and third, then second
/// and third. Vertices of equal `y` keep the order these steps give them.
pub open spec fn sort_by_y(p0: Point2, p1: Point2, p2: Point2) -> (Point2, Point2, Point2) {
    let (q0, q1) = if p1.y < p0.y {
        (p1, p0)
    } else {
        (p0, p1)
    };
    let (r0, q2) = if p2.y < q0.y {
        (p2, q0)
    } else {
        (q0, p2)
    };
    let (r1, r2) = if q2.y < q1.y {
        (q2, q1)
    } else {
        (q1, q2)
    };
    (r0, r1, r2)
}

/// A quantity interpolated along the two short sides of a triangle: from
/// `av` in row `ay` to `bv` in row `by`, and on to `cv` in row `cy`. The
/// value is that of the `k`-th row above `ay`; the row `by` itself is taken
/// from the upper side.
pub open spec fn joined_ramps(ay: int, av: int, by: int, bv: int, cy: int, cv: int, k: int) -> Frac {
    if k < by - ay {
        ramp_value(ay, av, by, bv, k)
    } else {
        ramp_value(by, bv, cy, cv, k - (by - ay))
    }
}

/// The `x` of the long side, from `a` to `c`, in the `k`-th row above `a`.
pub open spec fn long_side(a: Point2, c: Point2, k: int) -> Frac {
    ramp_value(a.y as int, a.x as int, c.y as int, c.x as int, k)
}

/// The `x` of the two short sides, from `a` to `b` and on from `b` to `c`,
/// in the `k`-th row above `a`.
pub open spec fn short_sides(a: Point2, b: Point2, c: Point2, k: int) -> Frac {
    joined_ramps(a.y as int, a.x as int, b.y as int, b.x as int, c.y as int, c.x as int, k)
}

/// Whether the short sides bound the triangle on the left: they do when, in
/// the middle row, they lie strictly left of the long side.
pub open spec fn short_sides_left(a: Point2, b: Point2, c: Point2) -> bool {
    let m = (c.y - a.y + 1) / 2;
    short_sides(a, b, c, m).lt(long_side(a, c, m))
}

/// The first and the last column painted in the `k`-th row above `a`, for
/// vertices `a`, `b`, `c` in ascending order of `y`.
pub open spec fn span(a: Point2, b: Point2, c: Point2, k: int) -> (int, int) {
    if short_sides_left(a, b, c) {
        (short_sides(a, b, c, k).trunc(), long_side(a, c, k).trunc())
    } else {
        (long_side(a, c, k).trunc(), short_sides(a, b, c, k).trunc())
    }
}

/// Whether the pixel `(x, y)` belongs to the filled triangle `p0`, `p1`, `p2`.
pub open spec fn in_triangle(p0: Point2, p1: Point2, p2: Point2, x: int, y: int) -> bool {
    let (a, b, c) = sort_by_y(p0, p1, p2);
    let (first, last) = span(a, b, c, y - a.y);
    a.y <= y <= c.y && first <= x <= last
}

/// Both sides of a triangle stay within the columns that its vertices span.
pub(crate) proof fn lemma_sides_between(a: Point2, b: Point2, c: Point2, k: int, lo: int, hi: int)
    requires
        a.y <= b.y <= c.y,
        0 <= k <= c.y - a.y,
        lo <= a.x <= hi,
        lo <= b.x <= hi,
        lo <= c.x <= hi,
    ensures
        lo <= long_side(a, c, k).trunc() <= hi,
        lo <= short_sides(a, b, c, k).trunc() <= hi,
{
    lemma_ramp_at_between(a.y as int, a.x as int, c.y as int, c.x as int, a.y + k, lo, hi);
    if k < b.y - a.y {
        lemma_ramp_at_between(a.y as int, a.x as int, b.y as int, b.x as int, a.y + k, lo, hi);
    } else {
        lemma_ramp_at_between(b.y as int, b.x as int, c.y as int, c.x as int, a.y + k, lo, hi);
    }
}

impl Canvas {
    /// Paints one horizontal span per row, upwards from row `y0`: in the
    /// `k`-th row from the integer part of `lefts[k]` to that of `rights[k]`,
    /// both included.
    fn fill_spans(&mut self, y0: i32, lefts: &Vec<Ratio>, rights: &Vec<Ratio>, color: u32)
        requires
            old(self).wf(),
            lefts.len() == rights.len(),
            y0 + lefts.len() - 1 <= i32::MAX,
            forall|k: int| 0 <= k < lefts.len() ==> (#[trigger] lefts[k]).wf(),
            forall|k: int| 0 <= k < rights.len() ==> (#[trigger] rights[k]).wf(),
            forall|k: int|
                0 <= k < lefts.len() ==> i32::MIN <= (#[trigger] lefts[k])@.trunc() <= i32::MAX
                    && old(self).in_bounds(lefts[k]@.trunc(), y0 + k),
            forall|k: int|
                0 <= k < rights.len() ==> i32::MIN <= (#[trigger] rights[k])@.trunc() <= i32::MAX
                    && old(self).in_bounds(rights[k]@.trunc(), y0 + k),
        ensures
            final(self).wf(),
            final(self).same_shape(old(self)),
            forall|x: int, y: int|
                old(self).in_bounds(x, y) ==> #[trigger] final(self).pixel(x, y) == (if y0 <= y
                    < y0 + lefts.len() && lefts[y - y0]@.trunc() <= x <= rights[y - y0]@.trunc() {
                    color
                } else {
                    old(self).pixel(x, y)
                }),
    {
        let rows = lefts.len();
        let mut k: usize = 0;
        while k < rows
            invariant
                self.wf(),
                self.same_shape(old(self)),
                rows == lefts.len(),
                rows == rights.len(),
                k <= rows,
                y0 + rows - 1 <= i32::MAX,
                forall|j: int| 0 <= j < lefts.len() ==> (#[trigger] lefts[j]).wf(),
                forall|j: int| 0 <= j < rights.len() ==> (#[trigger] rights[j]).wf(),
                forall|j: int|
                    0 <= j < lefts.len() ==> i32::MIN <= (#[trigger] lefts[j])@.trunc() <= i32::MAX
                        && old(self).in_bounds(lefts[j]@.trunc(), y0 + j),
                forall|j: int|
                    0 <= j < rights.len() ==> i32::MIN <= (#[trigger] rights[j])@.trunc()
                        <= i32::MAX && old(self).in_bounds(rights[j]@.trunc(), y0 + j),
                forall|x: int, y: int|
                    old(self).in_bounds(x, y) ==> #[trigger] self.pixel(x, y) == (if y0 <= y < y0
                        + k && lefts[y - y0]@.trunc() <= x <= rights[y - y0]@.trunc() {
                        color
                    } else {
                        old(self).pixel(x, y)
                    }),
            decreases rows - k,
        {
            let y: i32 = (y0 as i64 + k as i64) as i32;
            let x_start: i64 = lefts[k].trunc();
            let x_end: i64 = rights[k].trunc();
            let mut x: i64 = x_start;
            while x <= x_end
                invariant
                    self.wf(),
                    self.same_shape(old(self)),
                    k < rows,
                    rows == lefts.len(),
                    rows == rights.len(),
                    y == y0 + k,
                    x_start == lefts[k as int]@.trunc(),
                    x_end == rights[k as int]@.trunc(),
                    i32::MIN <= x_start <= i32::MAX,
                    i32::MIN <= x_end <= i32::MAX,
                    old(self).in_bounds(x_start as int, y as int),
                    old(self).in_bounds(x_end as int, y as int),
                    x_start <= x,
                    x <= x_end + 1 || x == x_start,
                    forall|px: int, py: int|
                        old(self).in_bounds(px, py) ==> #[trigger] self.pixel(px, py) == (if (y0
                            <= py < y0 + k && lefts[py - y0]@.trunc() <= px <= rights[py
                            - y0]@.trunc()) || (py == y && x_start <= px < x && px <= x_end) {
                            color
                        } else {
                            old(self).pixel(px, py)
                        }),
                decreases x_end + 1 - x,
            {
                let painted = self.set_pixel(x as i32, y, color);
                assert(painted is Ok);
                x = x + 1;
            }
            k = k + 1;
        }
    }

    /// Fills the triangle `p0`, `p1`, `p2`.
    ///
    /// The vertices are put in ascending order of `y`. For each row between
    /// the lowest and the highest vertex, the `x` of the long side and the
    /// `x` of the two short sides are interpolated; whichever lies left in
    /// the middle row starts the span of every row, the other ends it, and
    /// each span is painted with both ends included.
    ///
    /// A triangle with a vertex outside the canvas is reported and nothing
    /// is painted.
    pub fn draw_filled_triangle(
        &mut self,
        p0: &Point2,
        p1: &Point2,
        p2: &Point2,
        color: u32,
    ) -> (res: Result<(), RasterizationError>)
        requires
            old(self).wf(),
        ensures
            final(self).wf(),
            final(self).same_shape(old(self)),
            res is Ok <==> old(self).first_outside(seq![*p0, *p1, *p2]) is None,
            res is Ok ==> forall|x: int, y: int|
                old(self).in_bounds(x, y) ==> #[trigger] final(self).pixel(x, y) == (if in_triangle(
                    *p0,
                    *p1,
                    *p2,
                    x,
                    y,
                ) {
                    color
                } else {
                    old(self).pixel(x, y)
                }),
            res is Err ==> final(self)@ == old(self)@,
            res matches Err(e) ==> Some(e) == old(self).first_outside(seq![*p0, *p1, *p2]),
    {
        if let Some(e) = self.first_vertex_outside(p0, p1, p2) {
            return Err(e);
        }
        let (a, b, c) = sorted_by_y(*p0, *p1, *p2);
        let (x012, x02) = side_ramps(a.y, a.x, b.y, b.x, c.y, c.x);
        let m = x012.len() / 2;
        let short_left = x012[m].less_than(&x02[m]);
        let (x_left, x_right) = if short_left {
            (x012, x02)
        } else {
            (x02, x012)
        };
        proof {
            let lo = min3(a.x as int, b.x as int, c.x as int);
            let hi = max3(a.x as int, b.x as int, c.x as int);
            assert forall|k: int| 0 <= k < x_left.len() implies i32::MIN <= (
            #[trigger] x_left[k])@.trunc() <= i32::MAX && old(self).in_bounds(
                x_left[k]@.trunc(),
                a.y + k,
            ) by {
                lemma_sides_between(a, b, c, k, lo, hi);
            }
            assert forall|k: int| 0 <= k < x_right.len() implies i32::MIN <= (
            #[trigger] x_right[k])@.trunc() <= i32::MAX && old(self).in_bounds(
                x_right[k]@.trunc(),
                a.y + k,
            ) by {
                lemma_sides_between(a, b, c, k, lo, hi);
            }
        }
        self.fill_spans(a.y, &x_left, &x_right, color);
        Ok(())
    }
}

/// Interpolates a quantity along the sides of a triangle whose vertices lie
/// in the rows `ay <= by <= cy`: along the two short sides, joined at the
/// row `by`, and along the long side. Both results hold one value per row.
pub(crate) fn side_ramps(ay: i32, av: i32, by: i32, bv: i32, cy: i32, cv: i32) -> (sides: (
    Vec<Ratio>,
    Vec<Ratio>,
))
    requires
        ay <= by <= cy,
    ensures
        sides.0.len() == cy - ay + 1,
        sides.1.len() == cy - ay + 1,
        forall|k: int|
            0 <= k < sides.0.len() ==> (#[trigger] sides.0[k])@ == joined_ramps(
                ay as int,
                av as int,
                by as int,
                bv as int,
                cy as int,
                cv as int,
                k,
            ) && sides.0[k].wf(),
        forall|k: int|
            0 <= k < sides.1.len() ==> (#[trigger] sides.1[k])@ == ramp_value(
                ay as int,
                av as int,
                cy as int,
                cv as int,
                k,
            ) && sides.1[k].wf(),
{
    let mut lower = interpolate(ay, av, by, bv);
    let mut upper = interpolate(by, bv, cy, cv);
    let long = interpolate(ay, av, cy, cv);
    let ghost lower_all = lower@;
    let ghost upper_all = upper@;
    lower.pop();
    lower.append(&mut upper);
    proof {
        assert forall|k: int| 0 <= k < lower.len() implies (#[trigger] lower[k])@ == joined_ramps(
            ay as int,
            av as int,
            by as int,
            bv as int,
            cy as int,
            cv as int,
            k,
        ) && lower[k].wf() by {
            if k < by - ay {
                assert(lower[k] == lower_all[k]);
            } else {
                assert(lower[k] == upper_all[k - (by - ay)]);
            }
        }
    }
    (lower, long)
}

/// The smallest of three integers.
pub open spec fn min3(a: int, b: int, c: int) -> int {
    if a <= b && a <= c {
        a
    } else if b <= c {
        b
    } else {
        c
    }
}

/// The largest of three integers.
pub open spec fn max3(a: int, b: int, c: int) -> int {
    if a >= b && a >= c {
        a
    } else if b >= c {
        b
    } else {
        c
    }
}

/// Puts three vertices in ascending order of `y` by three compare-and-swap steps.
pub(crate) fn sorted_by_y(p0: Point2, p1: Point2, p2: Point2) -> (sorted: (Point2, Point2, Point2))
    ensures
        sorted == sort_by_y(p0, p1, p2),
        sorted.0.y <= sorted.1.y <= sorted.2.y,
{
    let mut a = p0;
    let mut b = p1;
    let mut c = p2;
    if b.y < a.y {
        let t = a;
        a = b;
        b = t;
    }
    if c.y < a.y {
        let t = a;
        a = c;
        c = t;
    }
    if c.y < b.y {
        let t = b;
        b = c;
        c = t;
    }
    (a, b, c)
}

} // verus!
