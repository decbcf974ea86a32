//! A box drawn by its edges.

use vstd::prelude::*;
use crate::canvas::{Canvas, RasterizationError, within};
use crate::color::Color;
use crate::model::{full, halves, point_of_halves};
use crate::point::{Point2, Point3};
use crate::projection::{lemma_project_each_len, project_each};
use crate::raster::{first_outside, on_line};
use crate::scene::{RenderError, Scene};

verus! {

/// A line between two of a list of points, by their indices, and its colour.
#[derive(Debug, Clone, Copy)]
pub struct Edge {
    pub from: usize,
    pub to: usize,
    pub color: u32,
}

/// The eight corners of a box in front of the camera, one unit wide, high
/// and deep: the four of the front face, then the four of the back face.
pub open spec fn box_corners() -> Seq<Point3> {
    seq![
        halves(-4, -1, 10),
        halves(-4, 1, 10),
        halves(-2, 1, 10),
        halves(-2, -1, 10),
        halves(-4, -1, 12),
        halves(-4, 1, 12),
        halves(-2, 1, 12),
        halves(-2, -1, 12),
    ]
}

/// The twelve edges of the box: the front face in blue, the back face in
/// red, and the four edges that join them in green.
pub open spec fn box_edges() -> Seq<Edge> {
    seq![
        Edge { from: 0, to: 1, color: full(0, 0, 255) },
        Edge { from: 1, to: 2, color: full(0, 0, 255) },
        Edge { from: 2, to: 3, color: full(0, 0, 255) },
        Edge { from: 3, to: 0, color: full(0, 0, 255) },
        Edge { from: 4, to: 5, color: full(255, 0, 0) },
        Edge { from: 5, to: 6, color: full(255, 0, 0) },
        Edge { from: 6, to: 7, color: full(255, 0, 0) },
        Edge { from: 7, to: 4, color: full(255, 0, 0) },
        Edge { from: 0, to: 4, color: full(0, 255, 0) },
        Edge { from: 1, to: 5, color: full(0, 255, 0) },
        Edge { from: 2, to: 6, color: full(0, 255, 0) },
        Edge { from: 3, to: 7, color: full(0, 255, 0) },
    ]
}

/// The colour of the pixel `(x, y)` once the `edges` have been drawn in
/// order over a pixel of colour `base`: the colour of the last edge that
/// holds the pixel, and `base` if none does.
pub open spec fn edge_color(edges: Seq<Edge>, points: Seq<Point2>, x: int, y: int, base: u32) -> u32
    decreases edges.len(),
{
    if edges.len() == 0 {
        base
    } else {
        let e = edges.last();
        if on_line(points[e.from as int], points[e.to as int], x, y) {
            e.color
        } else {
            edge_color(edges.drop_last(), points, x, y, base)
        }
    }
}

/// The canvas points of the given points of camera space, if all of them
/// can be projected and lie on the canvas.
pub open spec fn points_on_canvas(viewport: (int, int), canvas: (int, int), vertices: Seq<Point3>) -> Result<
    Seq<Point2>,
    RenderError,
> {
    match project_each(viewport, canvas, vertices) {
        Err(e) => Err(e),
        Ok(points) => match first_outside(canvas.0, canvas.1, points) {
            Some(e) => Err(RenderError::Rasterization(e)),
            None => Ok(points),
        },
    }
}

impl Scene {
    /// Draws the given edges, in order, between the given points.
    fn paint_edges(&self, canvas: &mut Canvas, edges: &Vec<Edge>, points: &Vec<Point2>)
        requires
            old(canvas).wf(),
            first_outside(old(canvas).spec_width(), old(canvas).spec_height(), points@) is None,
            forall|i: int|
                0 <= i < edges.len() ==> (#[trigger] edges[i]).from < points.len() && edges[i].to
                    < points.len(),
        ensures
            final(canvas).wf(),
            final(canvas).same_shape(old(canvas)),
            forall|x: int, y: int|
                old(canvas).in_bounds(x, y) ==> #[trigger] final(canvas).pixel(x, y) == edge_color(
                    edges@,
                    points@,
                    x,
                    y,
                    old(canvas).pixel(x, y),
                ),
    {
        let mut i: usize = 0;
        while i < edges.len()
            invariant
                canvas.wf(),
                canvas.same_shape(old(canvas)),
                i <= edges.len(),
                first_outside(old(canvas).spec_width(), old(canvas).spec_height(), points@) is None,
                forall|j: int|
                    0 <= j < edges.len() ==> (#[trigger] edges[j]).from < points.len()
                        && edges[j].to < points.len(),
                forall|x: int, y: int|
                    old(canvas).in_bounds(x, y) ==> #[trigger] canvas.pixel(x, y) == edge_color(
                        edges@.take(i as int),
                        points@,
                        x,
                        y,
                        old(canvas).pixel(x, y),
                    ),
            decreases edges.len() - i,
        {
            let edge = &edges[i];
            proof {
                lemma_none_outside(
                    old(canvas).spec_width(),
                    old(canvas).spec_height(),
                    points@,
                    edge.from as int,
                );
                lemma_none_outside(
                    old(canvas).spec_width(),
                    old(canvas).spec_height(),
                    points@,
                    edge.to as int,
                );
                assert(edges@.take(i + 1).drop_last() =~= edges@.take(i as int));
                assert(edges@.take(i + 1).last() == edges@[i as int]);
            }
            let drawn = canvas.draw_line(&points[edge.from], &points[edge.to], edge.color);
            assert(drawn is Ok);
            i += 1;
        }
        assert(edges@.take(i as int) =~= edges@);
    }

    /// Draws the twelve edges of a box that stands in front of a camera at
    /// the origin: the front face in blue, the back face in red, and the
    /// edges that join them in green, in that order.
    ///
    /// Nothing is painted unless every corner of the box can be projected
    /// and lies on the canvas: the first corner that does not is reported.
    pub fn render1(&self, canvas: &mut Canvas) -> (res: Result<(), RenderError>)
        requires
            old(canvas).wf(),
        ensures
            final(canvas).wf(),
            final(canvas).same_shape(old(canvas)),
            match points_on_canvas(self.viewport(), old(canvas).dims(), box_corners()) {
                Ok(points) => res is Ok && forall|x: int, y: int|
                    old(canvas).in_bounds(x, y) ==> #[trigger] final(canvas).pixel(x, y)
                        == edge_color(box_edges(), points, x, y, old(canvas).pixel(x, y)),
                Err(e) => res == Err::<(), RenderError>(e) && final(canvas)@ == old(canvas)@,
            },
    {
        let blue: u32 = u32::from(Color::rgb(0, 0, 255));
        let red: u32 = u32::from(Color::rgb(255, 0, 0));
        let green: u32 = u32::from(Color::rgb(0, 255, 0));
        let corners = vec![
            point_of_halves(-4, -1, 10),
            point_of_halves(-4, 1, 10),
            point_of_halves(-2, 1, 10),
            point_of_halves(-2, -1, 10),
            point_of_halves(-4, -1, 12),
            point_of_halves(-4, 1, 12),
            point_of_halves(-2, 1, 12),
            point_of_halves(-2, -1, 12),
        ];
        assert(corners@ =~= box_corners());
        let points = match self.project_points(canvas, &corners) {
            Ok(points) => points,
            Err(e) => {
                return Err(e);
            },
        };
        if let Some(e) = first_point_outside(canvas, &points) {
            return Err(RenderError::Rasterization(e));
        }
        let edges = vec![
            Edge { from: 0, to: 1, color: blue },
            Edge { from: 1, to: 2, color: blue },
            Edge { from: 2, to: 3, color: blue },
            Edge { from: 3, to: 0, color: blue },
            Edge { from: 4, to: 5, color: red },
            Edge { from: 5, to: 6, color: red },
            Edge { from: 6, to: 7, color: red },
            Edge { from: 7, to: 4, color: red },
            Edge { from: 0, to: 4, color: green },
            Edge { from: 1, to: 5, color: green },
            Edge { from: 2, to: 6, color: green },
            Edge { from: 3, to: 7, color: green },
        ];
        assert(edges@ =~= box_edges());
        proof {
            lemma_project_each_len(self.viewport(), canvas.dims(), corners@);
        }
        self.paint_edges(canvas, &edges, &points);
        Ok(())
    }
}

/// The first of the given points that lies outside the canvas, if any does.
fn first_point_outside(canvas: &Canvas, points: &Vec<Point2>) -> (found: Option<RasterizationError>)
    ensures
        found == first_outside(canvas.spec_width(), canvas.spec_height(), points@),
{
    let mut i: usize = 0;
    assert(points@.skip(0) =~= points@);
    while i < points.len()
        invariant
            i <= points.len(),
            first_outside(canvas.spec_width(), canvas.spec_height(), points@) == first_outside(
                canvas.spec_width(),
                canvas.spec_height(),
                points@.skip(i as int),
            ),
        decreases points.len() - i,
    {
        proof {
            assert(points@.skip(i as int).drop_first() =~= points@.skip(i + 1));
            assert(points@.skip(i as int)[0] == points@[i as int]);
        }
        if !canvas.contains(points[i].x, points[i].y) {
            return Some(RasterizationError { x: points[i].x, y: points[i].y });
        }
        i += 1;
    }
    None
}

/// Where no point lies outside, each one lies within.
proof fn lemma_none_outside(width: int, height: int, points: Seq<Point2>, i: int)
    requires
        first_outside(width, height, points) is None,
        0 <= i < points.len(),
    ensures
        within(width, height, points[i].x as int, points[i].y as int),
    decreases points.len(),
{
    if i > 0 {
        lemma_none_outside(width, height, points.drop_first(), i - 1);
    }
}

} // verus!
