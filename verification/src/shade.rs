//! Shaded triangles: filled triangles whose colour follows the light on
//! their vertices.

use vstd::prelude::*;
use crate::canvas::{Canvas, RasterizationError};
use crate::color::{shade, shaded};
use crate::fill::{
    in_triangle, joined_ramps, long_side, max3, min3, short_sides, short_sides_left, side_ramps,
    sort_by_y, sorted_by_y, span, lemma_sides_between,
};
use crate::fixed::Fixed;
use crate::interp::{interpolate, lemma_ramp_at_between, ramp, ramp_at, ramp_value};
use crate::point::Point2;
use crate::ratio::{Frac, Ratio};

verus! {

/// The intensity on the long side, from `a` to `c`, in the `k`-th row above
/// `a`, in raw units.
pub open spec fn long_shade(a: Point2, c: Point2, k: int) -> Frac {
    ramp_value(a.y as int, a.h.raw as int, c.y as int, c.h.raw as int, k)
}

/// The intensity on the two short sides, from `a` to `b` and on from `b` to
/// `c`, in the `k`-th row above `a`, in raw units.
pub open spec fn short_shades(a: Point2, b: Point2, c: Point2, k: int) -> Frac {
    joined_ramps(
        a.y as int,
        a.h.raw as int,
        b.y as int,
        b.h.raw as int,
        c.y as int,
        c.h.raw as int,
        k,
    )
}

/// The raw intensities at the first and the last column painted in the
/// `k`-th row above `a`, each rounded towards zero.
pub open spec fn shade_span(a: Point2, b: Point2, c: Point2, k: int) -> (int, int) {
    if short_sides_left(a, b, c) {
        (short_shades(a, b, c, k).trunc(), long_shade(a, c, k).trunc())
    } else {
        (long_shade(a, c, k).trunc(), short_shades(a, b, c, k).trunc())
    }
}

/// The intensity at the pixel `(x, y)` of the shaded triangle `p0`, `p1`,
/// `p2`: interpolated along the sides to both ends of the row, and from
/// there across the row, rounding towards zero each time.
pub open spec fn intensity_at(p0: Point2, p1: Point2, p2: Point2, x: int, y: int) -> Fixed {
    let (a, b, c) = sort_by_y(p0, p1, p2);
    let (first, last) = span(a, b, c, y - a.y);
    let (h_first, h_last) = shade_span(a, b, c, y - a.y);
    Fixed { raw: ramp_at(first, h_first, last, h_last, x) as i32 }
}

/// Both sides of a triangle carry intensities between those of its vertices.
proof fn lemma_shades_between(a: Point2, b: Point2, c: Point2, k: int, lo: int, hi: int)
    requires
        a.y <= b.y <= c.y,
        0 <= k <= c.y - a.y,
        lo <= a.h.raw <= hi,
        lo <= b.h.raw <= hi,
        lo <= c.h.raw <= hi,
    ensures
        lo <= long_shade(a, c, k).trunc() <= hi,
        lo <= short_shades(a, b, c, k).trunc() <= hi,
{
    lemma_ramp_at_between(a.y as int, a.h.raw as int, c.y as int, c.h.raw as int, a.y + k, lo, hi);
    if k < b.y - a.y {
        lemma_ramp_at_between(
            a.y as int,
            a.h.raw as int,
            b.y as int,
            b.h.raw as int,
            a.y + k,
            lo,
            hi,
        );
    } else {
        lemma_ramp_at_between(
            b.y as int,
            b.h.raw as int,
            c.y as int,
            c.h.raw as int,
            a.y + k,
            lo,
            hi,
        );
    }
}

/// One side of a triangle, row by row: where it lies and how brightly it is lit.
struct Side {
    xs: Vec<Ratio>,
    hs: Vec<Ratio>,
}

impl Side {
    /// The side holds, for each of `rows` rows, a column and a raw intensity
    /// whose integer parts both fit in 32 bits.
    spec fn wf(&self, rows: int) -> bool {
        &&& self.xs.len() == rows
        &&& self.hs.len() == rows
        &&& forall|k: int| 0 <= k < rows ==> (#[trigger] self.xs[k]).wf()
        &&& forall|k: int| 0 <= k < rows ==> (#[trigger] self.hs[k]).wf()
        &&& forall|k: int|
            0 <= k < rows ==> i32::MIN <= (#[trigger] self.xs[k])@.trunc() <= i32::MAX
        &&& forall|k: int|
            0 <= k < rows ==> i32::MIN <= (#[trigger] self.hs[k])@.trunc() <= i32::MAX
    }

    /// The column of the side in row `k`.
    spec fn x(&self, k: int) -> int {
        self.xs[k]@.trunc()
    }

    /// The raw intensity on the side in row `k`.
    spec fn h(&self, k: int) -> int {
        self.hs[k]@.trunc()
    }
}

/// The intensity at column `x` of row `k` between two sides.
spec fn row_intensity(left: &Side, right: &Side, k: int, x: int) -> Fixed {
    Fixed { raw: ramp_at(left.x(k), left.h(k), right.x(k), right.h(k), x) as i32 }
}

impl Canvas {
    /// Paints one shaded span per row, upwards from row `y0`: in the `k`-th
    /// row from the left side to the right side, both included, each pixel
    /// in `color` at the intensity interpolated between the two sides.
    fn shade_spans(&mut self, y0: i32, left: &Side, right: &Side, color: u32)
        requires
            old(self).wf(),
            left.wf(left.xs.len() as int),
            right.wf(left.xs.len() as int),
            y0 + left.xs.len() - 1 <= i32::MAX,
            forall|k: int|
                0 <= k < left.xs.len() ==> old(self).in_bounds(#[trigger] left.x(k), y0 + k),
            forall|k: int|
                0 <= k < left.xs.len() ==> old(self).in_bounds(#[trigger] right.x(k), y0 + k),
        ensures
            final(self).wf(),
            final(self).same_shape(old(self)),
            forall|x: int, y: int|
                old(self).in_bounds(x, y) ==> #[trigger] final(self).pixel(x, y) == (if y0 <= y
                    < y0 + left.xs.len() && left.x(y - y0) <= x <= right.x(y - y0) {
                    shade(color, row_intensity(left, right, y - y0, x))
                } else {
                    old(self).pixel(x, y)
                }),
    {
        let rows = left.xs.len();
        let mut k: usize = 0;
        while k < rows
            invariant
                self.wf(),
                self.same_shape(old(self)),
                rows == left.xs.len(),
                left.wf(rows as int),
                right.wf(rows as int),
                k <= rows,
                y0 + rows - 1 <= i32::MAX,
                forall|j: int|
                    0 <= j < rows ==> old(self).in_bounds(#[trigger] left.x(j), y0 + j),
                forall|j: int|
                    0 <= j < rows ==> old(self).in_bounds(#[trigger] right.x(j), y0 + j),
                forall|x: int, y: int|
                    old(self).in_bounds(x, y) ==> #[trigger] self.pixel(x, y) == (if y0 <= y < y0
                        + k && left.x(y - y0) <= x <= right.x(y - y0) {
                        shade(color, row_intensity(left, right, y - y0, x))
                    } else {
                        old(self).pixel(x, y)
                    }),
            decreases rows - k,
        {
            let y: i32 = (y0 as i64 + k as i64) as i32;
            assert(left.x(k as int) == left.xs[k as int]@.trunc());
            assert(right.x(k as int) == right.xs[k as int]@.trunc());
            assert(left.h(k as int) == left.hs[k as int]@.trunc());
            assert(right.h(k as int) == right.hs[k as int]@.trunc());
            let x_l: i32 = left.xs[k].trunc() as i32;
            let x_r: i32 = right.xs[k].trunc() as i32;
            let h_l: i32 = left.hs[k].trunc() as i32;
            let h_r: i32 = right.hs[k].trunc() as i32;
            let h_segment = interpolate(x_l, h_l, x_r, h_r);
            let mut x: i64 = x_l as i64;
            while x <= x_r as i64
                invariant
                    self.wf(),
                    self.same_shape(old(self)),
                    k < rows,
                    rows == left.xs.len(),
                    y == y0 + k,
                    x_l == left.x(k as int),
                    x_r == right.x(k as int),
                    h_l == left.h(k as int),
                    h_r == right.h(k as int),
                    old(self).in_bounds(x_l as int, y as int),
                    old(self).in_bounds(x_r as int, y as int),
                    x_l <= x,
                    x <= x_r + 1 || x == x_l,
                    x_l <= x_r ==> h_segment.len() == x_r - x_l + 1,
                    forall|j: int|
                        0 <= j < h_segment.len() ==> (#[trigger] h_segment[j])@ == ramp(
                            x_l as int,
                            h_l as int,
                            x_r as int,
                            h_r as int,
                        )[j],
                    forall|j: int| 0 <= j < h_segment.len() ==> (#[trigger] h_segment[j]).wf(),
                    forall|px: int, py: int|
                        old(self).in_bounds(px, py) ==> #[trigger] self.pixel(px, py) == (if (y0
                            <= py < y0 + k && left.x(py - y0) <= px <= right.x(py - y0)) || (py
                            == y && x_l <= px < x && px <= x_r) {
                            shade(color, row_intensity(left, right, py - y0, px))
                        } else {
                            old(self).pixel(px, py)
                        }),
                decreases x_r + 1 - x,
            {
                let j: usize = (x - x_l as i64) as usize;
                proof {
                    let lo = if h_l <= h_r { h_l as int } else { h_r as int };
                    let hi = if h_l <= h_r { h_r as int } else { h_l as int };
                    lemma_ramp_at_between(
                        x_l as int,
                        h_l as int,
                        x_r as int,
                        h_r as int,
                        x as int,
                        lo,
                        hi,
                    );
                    assert(h_segment[j as int]@ == ramp_value(
                        x_l as int,
                        h_l as int,
                        x_r as int,
                        h_r as int,
                        x - x_l,
                    ));
                }
                let h = Fixed { raw: h_segment[j].trunc() as i32 };
                assert(h == row_intensity(left, right, k as int, x as int));
                let painted = self.set_pixel(x as i32, y, shaded(color, h));
                assert(painted is Ok);
                x = x + 1;
            }
            k = k + 1;
        }
    }

    /// Fills the triangle `p0`, `p1`, `p2` with `color`, shaded by the
    /// intensities of its vertices.
    ///
    /// The rows and spans are those of the filled triangle. The intensity is
    /// interpolated along the sides as the columns are, and then across each
    /// span; every pixel is painted in `color` with its channels multiplied
    /// by the intensity found for it.
    ///
    /// A triangle with a vertex outside the canvas is reported and nothing
    /// is painted.
    pub fn draw_shaded_triangle(
        &mut self,
        p0: &Point2,
        p1: &Point2,
        p2: &Point2,
        color: u32,
    ) -> (res: Result<(), RasterizationError>)
        requires
            old(self).wf(),
        ensures
            final(self).wf(),
            final(self).same_shape(old(self)),
            res is Ok <==> old(self).first_outside(seq![*p0, *p1, *p2]) is None,
            res is Ok ==> forall|x: int, y: int|
                old(self).in_bounds(x, y) ==> #[trigger] final(self).pixel(x, y) == (if in_triangle(
                    *p0,
                    *p1,
                    *p2,
                    x,
                    y,
                ) {
                    shade(color, intensity_at(*p0, *p1, *p2, x, y))
                } else {
                    old(self).pixel(x, y)
                }),
            res is Err ==> final(self)@ == old(self)@,
            res matches Err(e) ==> Some(e) == old(self).first_outside(seq![*p0, *p1, *p2]),
    {
        if let Some(e) = self.first_vertex_outside(p0, p1, p2) {
            return Err(e);
        }
        let (a, b, c) = sorted_by_y(*p0, *p1, *p2);
        let (x012, x02) = side_ramps(a.y, a.x, b.y, b.x, c.y, c.x);
        let (h012, h02) = side_ramps(a.y, a.h.raw, b.y, b.h.raw, c.y, c.h.raw);
        let m = x012.len() / 2;
        let short_left = x012[m].less_than(&x02[m]);
        let short = Side { xs: x012, hs: h012 };
        let long = Side { xs: x02, hs: h02 };
        proof {
            let lo = min3(a.x as int, b.x as int, c.x as int);
            let hi = max3(a.x as int, b.x as int, c.x as int);
            let h_lo = min3(a.h.raw as int, b.h.raw as int, c.h.raw as int);
            let h_hi = max3(a.h.raw as int, b.h.raw as int, c.h.raw as int);
            assert forall|k: int| 0 <= k <= c.y - a.y implies lo <= (
            #[trigger] short.xs[k])@.trunc() <= hi && short.x(k) == short_sides(a, b, c, k).trunc() by {
                lemma_sides_between(a, b, c, k, lo, hi);
            }
            assert forall|k: int| 0 <= k <= c.y - a.y implies lo <= (
            #[trigger] long.xs[k])@.trunc() <= hi && long.x(k) == long_side(a, c, k).trunc() by {
                lemma_sides_between(a, b, c, k, lo, hi);
            }
            assert forall|k: int| 0 <= k <= c.y - a.y implies h_lo <= (
            #[trigger] short.hs[k])@.trunc() <= h_hi && short.h(k) == short_shades(
                a,
                b,
                c,
                k,
            ).trunc() by {
                lemma_shades_between(a, b, c, k, h_lo, h_hi);
            }
            assert forall|k: int| 0 <= k <= c.y - a.y implies h_lo <= (
            #[trigger] long.hs[k])@.trunc() <= h_hi && long.h(k) == long_shade(a, c, k).trunc() by {
                lemma_shades_between(a, b, c, k, h_lo, h_hi);
            }
            assert(short.wf(c.y - a.y + 1));
            assert(long.wf(c.y - a.y + 1));
            assert forall|k: int| 0 <= k <= c.y - a.y implies old(self).in_bounds(
                #[trigger] short.x(k),
                a.y + k,
            ) by {
                assert(lo <= short.xs[k]@.trunc() <= hi);
            }
            assert forall|k: int| 0 <= k <= c.y - a.y implies old(self).in_bounds(
                #[trigger] long.x(k),
                a.y + k,
            ) by {
                assert(lo <= long.xs[k]@.trunc() <= hi);
            }
        }
        if short_left {
            self.shade_spans(a.y, &short, &long, color);
        } else {
            self.shade_spans(a.y, &long, &short, color);
        }
        Ok(())
    }
}

/// A triangle whose vertices are all lit alike is lit alike all over.
pub proof fn lemma_even_light(p0: Point2, p1: Point2, p2: Point2, x: int, y: int)
    requires
        p0.h == p1.h,
        p1.h == p2.h,
        in_triangle(p0, p1, p2, x, y),
    ensures
        intensity_at(p0, p1, p2, x, y) == p0.h,
{
    let (a, b, c) = sort_by_y(p0, p1, p2);
    let h = p0.h.raw as int;
    let k = y - a.y;
    lemma_shades_between(a, b, c, k, h, h);
    let (first, last) = span(a, b, c, k);
    let (h_first, h_last) = shade_span(a, b, c, k);
    lemma_ramp_at_between(first, h_first, last, h_last, x, h, h);
}

} // verus!
