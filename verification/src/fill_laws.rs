//! What holds of every filled triangle.

use vstd::prelude::*;
use crate::canvas::Canvas;
use crate::fill::{
    in_triangle, lemma_sides_between, long_side, max3, min3, short_sides, short_sides_left,
    sort_by_y, span,
};
use crate::point::Point2;
use crate::ratio::lemma_trunc_div_multiple;

verus! {

/// Whether the fill of the triangle depends on the order in which its
/// vertices are given.
///
/// It does in two cases, both of a triangle at most two rows high. A triangle
/// squeezed into a single row is spanned by whichever two vertices come
/// first, unless all three coincide. And in a triangle of two rows with two
/// distinct vertices in the lower row, both sides meet in the middle row,
/// which is the upper one, so neither is recognised as the left side: the
/// lower row is then spanned from the first of its vertices to the second,
/// which is an empty span when the first lies to the right.
pub open spec fn order_sensitive(p0: Point2, p1: Point2, p2: Point2) -> bool {
    let (a, b, c) = sort_by_y(p0, p1, p2);
    ||| (c.y == a.y && !(a.x == b.x && b.x == c.x))
    ||| (c.y == a.y + 1 && b.y == a.y && a.x != b.x)
}

/// Which of two fractions over the same positive denominator is smaller is
/// decided by their numerators.
proof fn lemma_lt_same_den(n1: int, n2: int, den: int)
    by (nonlinear_arith)
    requires
        den > 0,
    ensures
        n1 * den < n2 * den <==> n1 < n2,
{
}

/// Two ramps that end in the same value, over the same number of steps,
/// compare before the end as their starting values do.
proof fn lemma_ramps_to_same_end(x0: int, x1: int, end: int, h: int, m: int)
    by (nonlinear_arith)
    requires
        0 <= m < h,
    ensures
        x0 * h + m * (end - x0) < x1 * h + m * (end - x1) <==> x0 < x1,
{
    assert((x0 * h + m * (end - x0)) - (x1 * h + m * (end - x1)) == (x0 - x1) * (h - m));
}

/// Two ramps that start from the same value, over the same number of steps,
/// compare after the start as their final values do.
proof fn lemma_ramps_from_same_start(start: int, x0: int, x1: int, h: int, m: int)
    by (nonlinear_arith)
    requires
        0 < m,
    ensures
        start * h + m * (x0 - start) < start * h + m * (x1 - start) <==> x0 < x1,
{
    assert((start * h + m * (x0 - start)) - (start * h + m * (x1 - start)) == (x0 - x1) * m);
}

/// Exchanging the two lower vertices, where they share a row, leaves every
/// span as it is: unless the triangle is less than three rows high and the
/// two differ.
proof fn lemma_swap_lower(a: Point2, b: Point2, c: Point2)
    requires
        a.y == b.y <= c.y,
        c.y - a.y >= 2 || a.x == b.x,
    ensures
        forall|k: int| 0 <= k <= c.y - a.y ==> #[trigger] span(a, b, c, k) == span(b, a, c, k),
{
    if a.x != b.x {
        let h = c.y - a.y;
        let m = (h + 1) / 2;
        lemma_ramps_to_same_end(b.x as int, a.x as int, c.x as int, h, m);
        lemma_ramps_to_same_end(a.x as int, b.x as int, c.x as int, h, m);
        let s = short_sides(a, b, c, m);
        let l = long_side(a, c, m);
        lemma_lt_same_den(s.num, l.num, h);
        lemma_lt_same_den(l.num, s.num, h);
        assert(short_sides(b, a, c, m) == l);
        assert(long_side(b, c, m) == s);
        assert(short_sides_left(a, b, c) <==> b.x < a.x);
        assert(short_sides_left(b, a, c) <==> a.x < b.x);
    }
}

/// Exchanging the two upper vertices, where they share a row above the
/// lowest vertex, leaves every span as it is.
proof fn lemma_swap_upper(a: Point2, b: Point2, c: Point2)
    requires
        a.y < b.y == c.y,
    ensures
        forall|k: int| 0 <= k <= c.y - a.y ==> #[trigger] span(a, b, c, k) == span(a, c, b, k),
{
    let h = c.y - a.y;
    let m = (h + 1) / 2;
    lemma_trunc_div_multiple(b.x as int, h);
    lemma_trunc_div_multiple(c.x as int, h);
    assert(a.x * h + h * (b.x - a.x) == b.x * h) by (nonlinear_arith);
    assert(a.x * h + h * (c.x - a.x) == c.x * h) by (nonlinear_arith);
    assert forall|k: int| 0 <= k <= h implies (#[trigger] short_sides(a, b, c, k)).trunc()
        == long_side(a, b, k).trunc() by {
        if k == h {
            assert(short_sides(a, b, c, k).num == b.x);
            assert(short_sides(a, b, c, k).den == 1);
            assert(long_side(a, b, k).num == b.x * h);
            assert(long_side(a, b, k).den == h);
        }
    }
    assert forall|k: int| 0 <= k <= h implies (#[trigger] short_sides(a, c, b, k)).trunc()
        == long_side(a, c, k).trunc() by {
        if k == h {
            assert(short_sides(a, c, b, k).num == c.x);
            assert(short_sides(a, c, b, k).den == 1);
            assert(long_side(a, c, k).num == c.x * h);
            assert(long_side(a, c, k).den == h);
        }
    }
    if m < h {
        lemma_ramps_from_same_start(a.x as int, b.x as int, c.x as int, h, m);
        lemma_ramps_from_same_start(a.x as int, c.x as int, b.x as int, h, m);
        lemma_lt_same_den(short_sides(a, b, c, m).num, long_side(a, c, m).num, h);
        lemma_lt_same_den(short_sides(a, c, b, m).num, long_side(a, b, m).num, h);
    } else {
        assert(h == 1 && m == 1);
    }
    assert(short_sides_left(a, b, c) <==> b.x < c.x);
    assert(short_sides_left(a, c, b) <==> c.x < b.x);
}

/// A filled triangle stays within the rows and the columns that its
/// vertices span.
pub proof fn lemma_triangle_in_box(p0: Point2, p1: Point2, p2: Point2, x: int, y: int)
    requires
        in_triangle(p0, p1, p2, x, y),
    ensures
        min3(p0.x as int, p1.x as int, p2.x as int) <= x <= max3(
            p0.x as int,
            p1.x as int,
            p2.x as int,
        ),
        min3(p0.y as int, p1.y as int, p2.y as int) <= y <= max3(
            p0.y as int,
            p1.y as int,
            p2.y as int,
        ),
{
    let (a, b, c) = sort_by_y(p0, p1, p2);
    lemma_sides_between(
        a,
        b,
        c,
        y - a.y,
        min3(p0.x as int, p1.x as int, p2.x as int),
        max3(p0.x as int, p1.x as int, p2.x as int),
    );
}

/// A triangle whose three vertices coincide is the one pixel they share.
pub proof fn lemma_point_triangle(p: Point2, x: int, y: int)
    ensures
        in_triangle(p, p, p, x, y) <==> x == p.x && y == p.y,
{
    lemma_trunc_div_multiple(p.x as int, 1);
}

/// Whether `q` holds the same three vertices as `p`, in any order.
pub open spec fn same_vertices(p: (Point2, Point2, Point2), q: (Point2, Point2, Point2)) -> bool {
    ||| q == (p.0, p.1, p.2)
    ||| q == (p.0, p.2, p.1)
    ||| q == (p.1, p.0, p.2)
    ||| q == (p.1, p.2, p.0)
    ||| q == (p.2, p.0, p.1)
    ||| q == (p.2, p.1, p.0)
}

/// Filling a triangle paints the same pixels in whatever order its vertices
/// are given, as long as the triangle is not one of the flat ones whose fill
/// depends on that order.
pub proof fn lemma_fill_order_independent(
    p: (Point2, Point2, Point2),
    q: (Point2, Point2, Point2),
)
    requires
        same_vertices(p, q),
        !order_sensitive(p.0, p.1, p.2),
    ensures
        !order_sensitive(q.0, q.1, q.2),
        forall|x: int, y: int|
            in_triangle(p.0, p.1, p.2, x, y) == in_triangle(q.0, q.1, q.2, x, y),
{
    let (a, b, c) = sort_by_y(p.0, p.1, p.2);
    if a.y == b.y && (c.y - a.y >= 2 || a.x == b.x) {
        lemma_swap_lower(a, b, c);
    }
    if a.y < b.y && b.y == c.y {
        lemma_swap_upper(a, b, c);
    }
    let (a2, b2, c2) = sort_by_y(q.0, q.1, q.2);
    assert(a2.y == a.y && b2.y == b.y && c2.y == c.y);
    assert forall|x: int, y: int| in_triangle(p.0, p.1, p.2, x, y) == in_triangle(
        q.0,
        q.1,
        q.2,
        x,
        y,
    ) by {
        let k = y - a.y;
        if 0 <= k <= c.y - a.y {
            assert(span(a, b, c, k) == span(a2, b2, c2, k));
        }
    }
}

/// Filling a triangle from the same canvas, once with its vertices in one
/// order and once in another, leaves the same pixels, as long as the
/// triangle is not one of the flat ones whose fill depends on the order.
pub proof fn lemma_fill_same_output(
    start: &Canvas,
    first: &Canvas,
    second: &Canvas,
    p: (Point2, Point2, Point2),
    q: (Point2, Point2, Point2),
    color: u32,
)
    requires
        first.wf(),
        second.wf(),
        first.same_shape(start),
        second.same_shape(start),
        same_vertices(p, q),
        !order_sensitive(p.0, p.1, p.2),
        forall|x: int, y: int|
            start.in_bounds(x, y) ==> #[trigger] first.pixel(x, y) == (if in_triangle(
                p.0,
                p.1,
                p.2,
                x,
                y,
            ) {
                color
            } else {
                start.pixel(x, y)
            }),
        forall|x: int, y: int|
            start.in_bounds(x, y) ==> #[trigger] second.pixel(x, y) == (if in_triangle(
                q.0,
                q.1,
                q.2,
                x,
                y,
            ) {
                color
            } else {
                start.pixel(x, y)
            }),
    ensures
        first@ == second@,
{
    lemma_fill_order_independent(p, q);
    assert forall|x: int, y: int| first.in_bounds(x, y) implies #[trigger] first.pixel(x, y)
        == second.pixel(x, y) by {
        assert(start.in_bounds(x, y));
        assert(second.pixel(x, y) == (if in_triangle(q.0, q.1, q.2, x, y) {
            color
        } else {
            start.pixel(x, y)
        }));
    }
    first.lemma_pixels_are_all(second);
}

} // verus!
