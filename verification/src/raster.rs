//! Lines and triangles painted onto a canvas.

use vstd::prelude::*;
use crate::canvas::{Canvas, RasterizationError, within};
use crate::interp::{interpolate, lemma_ramp_at_between, ramp, ramp_at, ramp_value};
use crate::point::Point2;

verus! {

/// The absolute value of `v`.
pub open spec fn abs(v: int) -> int {
    if v < 0 {
        -v
    } else {
        v
    }
}

/// Whether the line from `p0` to `p1` is wider than it is tall, and is
/// therefore walked along `x`.
pub open spec fn x_major(p0: Point2, p1: Point2) -> bool {
    abs(p1.x - p0.x) > abs(p1.y - p0.y)
}

/// Whether the pixel `(x, y)` belongs to the line from `p0` to `p1`.
///
/// The line is walked along its dominant axis from the endpoint with the
/// smaller coordinate on that axis, one pixel per step; the other
/// coordinate is the linear ramp between the endpoints, rounded towards zero.
pub open spec fn on_line(p0: Point2, p1: Point2, x: int, y: int) -> bool {
    if x_major(p0, p1) {
        let (a, b) = if p0.x > p1.x {
            (p1, p0)
        } else {
            (p0, p1)
        };
        a.x <= x <= b.x && y == ramp_at(a.x as int, a.y as int, b.x as int, b.y as int, x)
    } else {
        let (a, b) = if p0.y > p1.y {
            (p1, p0)
        } else {
            (p0, p1)
        };
        a.y <= y <= b.y && x == ramp_at(a.y as int, a.x as int, b.y as int, b.x as int, y)
    }
}

/// Which vertex, if any, keeps a figure from being drawn on a canvas of the
/// given width and height: the first of the given vertices that lies
/// outside it.
pub open spec fn first_outside(width: int, height: int, vertices: Seq<Point2>) -> Option<
    RasterizationError,
>
    decreases vertices.len(),
{
    if vertices.len() == 0 {
        None
    } else if !within(width, height, vertices[0].x as int, vertices[0].y as int) {
        Some(RasterizationError { x: vertices[0].x, y: vertices[0].y })
    } else {
        first_outside(width, height, vertices.drop_first())
    }
}

/// The canvas coordinates that lie within a canvas form a rectangle: a
/// coordinate between two in-bounds ones, axis by axis, is in bounds.
proof fn lemma_bounds_convex(
    canvas: &Canvas,
    x0: int,
    y0: int,
    x1: int,
    y1: int,
    x: int,
    y: int,
)
    requires
        canvas.in_bounds(x0, y0),
        canvas.in_bounds(x1, y1),
        x0 <= x <= x1 || x1 <= x <= x0,
        y0 <= y <= y1 || y1 <= y <= y0,
    ensures
        canvas.in_bounds(x, y),
{
}

impl Canvas {
    /// Walks from `a` to `b` along `x`, painting one pixel per column.
    fn draw_line_along_x(&mut self, a: Point2, b: Point2, color: u32)
        requires
            old(self).wf(),
            old(self).in_bounds(a.x as int, a.y as int),
            old(self).in_bounds(b.x as int, b.y as int),
            a.x <= b.x,
        ensures
            final(self).wf(),
            final(self).same_shape(old(self)),
            forall|x: int, y: int|
                old(self).in_bounds(x, y) ==> #[trigger] final(self).pixel(x, y) == (if a.x <= x
                    <= b.x && y == ramp_at(a.x as int, a.y as int, b.x as int, b.y as int, x) {
                    color
                } else {
                    old(self).pixel(x, y)
                }),
    {
        let ys = interpolate(a.x, a.y, b.x, b.y);
        let mut x: i64 = a.x as i64;
        while x <= b.x as i64
            invariant
                self.wf(),
                self.same_shape(old(self)),
                old(self).in_bounds(a.x as int, a.y as int),
                old(self).in_bounds(b.x as int, b.y as int),
                a.x <= x <= b.x + 1,
                ys.len() == b.x - a.x + 1,
                forall|k: int|
                    0 <= k < ys.len() ==> (#[trigger] ys[k])@ == ramp(
                        a.x as int,
                        a.y as int,
                        b.x as int,
                        b.y as int,
                    )[k],
                forall|k: int| 0 <= k < ys.len() ==> (#[trigger] ys[k]).wf(),
                forall|px: int, py: int|
                    old(self).in_bounds(px, py) ==> #[trigger] self.pixel(px, py) == (if a.x <= px
                        < x && py == ramp_at(
                        a.x as int,
                        a.y as int,
                        b.x as int,
                        b.y as int,
                        px,
                    ) {
                        color
                    } else {
                        old(self).pixel(px, py)
                    }),
            decreases b.x + 1 - x,
        {
            let k: usize = (x - a.x as i64) as usize;
            let ghost lo = if a.y <= b.y { a.y as int } else { b.y as int };
            let ghost hi = if a.y <= b.y { b.y as int } else { a.y as int };
            proof {
                lemma_ramp_at_between(a.x as int, a.y as int, b.x as int, b.y as int, x as int, lo, hi);
                assert(ys[k as int]@ == ramp_value(
                    a.x as int,
                    a.y as int,
                    b.x as int,
                    b.y as int,
                    x - a.x,
                ));
            }
            let y: i32 = ys[k].trunc() as i32;
            proof {
                lemma_bounds_convex(
                    old(self),
                    a.x as int,
                    a.y as int,
                    b.x as int,
                    b.y as int,
                    x as int,
                    y as int,
                );
            }
            let painted = self.set_pixel(x as i32, y, color);
            assert(painted is Ok);
            x = x + 1;
        }
    }

    /// Walks from `a` to `b` along `y`, painting one pixel per row.
    fn draw_line_along_y(&mut self, a: Point2, b: Point2, color: u32)
        requires
            old(self).wf(),
            old(self).in_bounds(a.x as int, a.y as int),
            old(self).in_bounds(b.x as int, b.y as int),
            a.y <= b.y,
        ensures
            final(self).wf(),
            final(self).same_shape(old(self)),
            forall|x: int, y: int|
                old(self).in_bounds(x, y) ==> #[trigger] final(self).pixel(x, y) == (if a.y <= y
                    <= b.y && x == ramp_at(a.y as int, a.x as int, b.y as int, b.x as int, y) {
                    color
                } else {
                    old(self).pixel(x, y)
                }),
    {
        let xs = interpolate(a.y, a.x, b.y, b.x);
        let mut y: i64 = a.y as i64;
        while y <= b.y as i64
            invariant
                self.wf(),
                self.same_shape(old(self)),
                old(self).in_bounds(a.x as int, a.y as int),
                old(self).in_bounds(b.x as int, b.y as int),
                a.y <= y <= b.y + 1,
                xs.len() == b.y - a.y + 1,
                forall|k: int|
                    0 <= k < xs.len() ==> (#[trigger] xs[k])@ == ramp(
                        a.y as int,
                        a.x as int,
                        b.y as int,
                        b.x as int,
                    )[k],
                forall|k: int| 0 <= k < xs.len() ==> (#[trigger] xs[k]).wf(),
                forall|px: int, py: int|
                    old(self).in_bounds(px, py) ==> #[trigger] self.pixel(px, py) == (if a.y <= py
                        < y && px == ramp_at(
                        a.y as int,
                        a.x as int,
                        b.y as int,
                        b.x as int,
                        py,
                    ) {
                        color
                    } else {
                        old(self).pixel(px, py)
                    }),
            decreases b.y + 1 - y,
        {
            let k: usize = (y - a.y as i64) as usize;
            let ghost lo = if a.x <= b.x { a.x as int } else { b.x as int };
            let ghost hi = if a.x <= b.x { b.x as int } else { a.x as int };
            proof {
                lemma_ramp_at_between(a.y as int, a.x as int, b.y as int, b.x as int, y as int, lo, hi);
                assert(xs[k as int]@ == ramp_value(
                    a.y as int,
                    a.x as int,
                    b.y as int,
                    b.x as int,
                    y - a.y,
                ));
            }
            let x: i32 = xs[k].trunc() as i32;
            proof {
                lemma_bounds_convex(
                    old(self),
                    a.x as int,
                    a.y as int,
                    b.x as int,
                    b.y as int,
                    x as int,
                    y as int,
                );
            }
            let painted = self.set_pixel(x, y as i32, color);
            assert(painted is Ok);
            y = y + 1;
        }
    }

    /// Which vertex, if any, keeps a figure from being drawn on this canvas:
    /// the first of the given vertices that lies outside it.
    pub open spec fn first_outside(&self, vertices: Seq<Point2>) -> Option<RasterizationError> {
        first_outside(self.spec_width(), self.spec_height(), vertices)
    }

    /// Draws the line from `p0` to `p1`, both ends included.
    ///
    /// The line is walked along the axis on which the endpoints lie further
    /// apart, so that it has no gaps whatever its slope. A line with an
    /// endpoint outside the canvas is reported and nothing is painted.
    pub fn draw_line(&mut self, p0: &Point2, p1: &Point2, color: u32) -> (res: Result<
        (),
        RasterizationError,
    >)
        requires
            old(self).wf(),
        ensures
            final(self).wf(),
            final(self).same_shape(old(self)),
            res is Ok <==> old(self).in_bounds(p0.x as int, p0.y as int) && old(self).in_bounds(
                p1.x as int,
                p1.y as int,
            ),
            res is Ok ==> forall|x: int, y: int|
                old(self).in_bounds(x, y) ==> #[trigger] final(self).pixel(x, y) == (if on_line(
                    *p0,
                    *p1,
                    x,
                    y,
                ) {
                    color
                } else {
                    old(self).pixel(x, y)
                }),
            res is Err ==> final(self)@ == old(self)@,
            res matches Err(e) ==> Some(e) == old(self).first_outside(seq![*p0, *p1]),
    {
        if !self.contains(p0.x, p0.y) {
            proof {
                reveal_with_fuel(first_outside, 3);
            }
            return Err(RasterizationError { x: p0.x, y: p0.y });
        }
        if !self.contains(p1.x, p1.y) {
            proof {
                reveal_with_fuel(first_outside, 3);
                assert(seq![*p0, *p1].drop_first() =~= seq![*p1]);
            }
            return Err(RasterizationError { x: p1.x, y: p1.y });
        }
        let dx: i64 = p1.x as i64 - p0.x as i64;
        let dy: i64 = p1.y as i64 - p0.y as i64;
        let adx: i64 = if dx < 0 { -dx } else { dx };
        let ady: i64 = if dy < 0 { -dy } else { dy };
        if adx > ady {
            if p0.x > p1.x {
                self.draw_line_along_x(*p1, *p0, color);
            } else {
                self.draw_line_along_x(*p0, *p1, color);
            }
        } else {
            if p0.y > p1.y {
                self.draw_line_along_y(*p1, *p0, color);
            } else {
                self.draw_line_along_y(*p0, *p1, color);
            }
        }
        Ok(())
    }

    /// Whether the pixel `(x, y)` belongs to the outline of the triangle `p0`, `p1`, `p2`.
    pub open spec fn on_wireframe(p0: Point2, p1: Point2, p2: Point2, x: int, y: int) -> bool {
        on_line(p0, p1, x, y) || on_line(p1, p2, x, y) || on_line(p2, p0, x, y)
    }

    /// Draws the outline of the triangle `p0`, `p1`, `p2`: the three lines
    /// from `p0` to `p1`, from `p1` to `p2` and from `p2` back to `p0`.
    ///
    /// A triangle with a vertex outside the canvas is reported and nothing
    /// is painted.
    pub fn draw_wireframe(&mut self, p0: &Point2, p1: &Point2, p2: &Point2, color: u32) -> (res:
        Result<(), RasterizationError>)
        requires
            old(self).wf(),
        ensures
            final(self).wf(),
            final(self).same_shape(old(self)),
            res is Ok <==> old(self).first_outside(seq![*p0, *p1, *p2]) is None,
            res is Ok ==> forall|x: int, y: int|
                old(self).in_bounds(x, y) ==> #[trigger] final(self).pixel(x, y) == (if
                    Self::on_wireframe(*p0, *p1, *p2, x, y) {
                    color
                } else {
                    old(self).pixel(x, y)
                }),
            res is Err ==> final(self)@ == old(self)@,
            res matches Err(e) ==> Some(e) == old(self).first_outside(seq![*p0, *p1, *p2]),
    {
        match self.first_vertex_outside(p0, p1, p2) {
            Some(e) => Err(e),
            None => {
                let first = self.draw_line(p0, p1, color);
                let second = self.draw_line(p1, p2, color);
                let third = self.draw_line(p2, p0, color);
                assert(first is Ok && second is Ok && third is Ok);
                Ok(())
            },
        }
    }

    /// The first of three vertices that lies outside the canvas, if any does.
    pub(crate) fn first_vertex_outside(&self, p0: &Point2, p1: &Point2, p2: &Point2) -> (found: Option<
        RasterizationError,
    >)
        ensures
            found == self.first_outside(seq![*p0, *p1, *p2]),
            found is None <==> self.in_bounds(p0.x as int, p0.y as int) && self.in_bounds(
                p1.x as int,
                p1.y as int,
            ) && self.in_bounds(p2.x as int, p2.y as int),
    {
        proof {
            reveal_with_fuel(first_outside, 4);
            assert(seq![*p0, *p1, *p2].drop_first() =~= seq![*p1, *p2]);
            assert(seq![*p1, *p2].drop_first() =~= seq![*p2]);
        }
        if !self.contains(p0.x, p0.y) {
            Some(RasterizationError { x: p0.x, y: p0.y })
        } else if !self.contains(p1.x, p1.y) {
            Some(RasterizationError { x: p1.x, y: p1.y })
        } else if !self.contains(p2.x, p2.y) {
            Some(RasterizationError { x: p2.x, y: p2.y })
        } else {
            None
        }
    }
}

} // verus!
