//! Projection: from points of camera space to points of the canvas.

use vstd::prelude::*;
use crate::canvas::{Canvas, within};
use crate::fixed::{Fixed, ONE_RAW, over_raw, times_raw};
use crate::matrix::Matrix4;
use crate::point::{Point2, Point3};
use crate::ratio::trunc_div;
use crate::scene::{RenderError, Scene};

verus! {

/// The distance from the camera to the plane that the scene is projected
/// onto, in raw units: one.
pub const PROJECTION_PLANE_Z_RAW: i32 = 65536;

/// Why a point of the scene has no place on the canvas.
#[derive(Debug, Clone, Copy, PartialEq, Eq, Structural)]
pub enum ProjectionError {
    /// The point lies in the plane of the camera or behind it.
    BehindCamera,
    /// The viewport of the scene has no width or no height.
    EmptyViewport,
}

/// `v`, held to the range of a canvas coordinate.
pub open spec fn clamp_coordinate(v: int) -> int {
    if v < i32::MIN {
        i32::MIN as int
    } else if v > i32::MAX {
        i32::MAX as int
    } else {
        v
    }
}

/// A viewport coordinate scaled to the canvas: multiplied by the ratio of the
/// canvas dimension to the viewport dimension, and rounded towards zero.
pub open spec fn to_canvas(v: Fixed, canvas_dim: int, viewport_dim: int) -> int {
    clamp_coordinate(trunc_div(v.raw * canvas_dim, viewport_dim * ONE_RAW))
}

/// The canvas point of the viewport point `(x, y)`, for a viewport and a
/// canvas given by their widths and heights.
pub open spec fn viewport_point(viewport: (int, int), canvas: (int, int), x: Fixed, y: Fixed) -> Result<
    Point2,
    ProjectionError,
> {
    if viewport.0 <= 0 || viewport.1 <= 0 {
        Err(ProjectionError::EmptyViewport)
    } else {
        Ok(
            Point2 {
                x: to_canvas(x, canvas.0, viewport.0) as i32,
                y: to_canvas(y, canvas.1, viewport.1) as i32,
                h: Fixed { raw: ONE_RAW },
            },
        )
    }
}

/// One coordinate of a point in camera space, projected onto the plane at
/// the projection distance: multiplied by that distance and divided by the
/// depth `z` of the point.
pub open spec fn perspective(v: Fixed, z: Fixed) -> Fixed {
    Fixed {
        raw: over_raw(
            times_raw(v.raw as int, PROJECTION_PLANE_Z_RAW as int),
            z.raw as int,
        ) as i32,
    }
}

/// The canvas point of the point `v` of camera space. A point that is not
/// in front of the camera has none.
pub open spec fn projected(viewport: (int, int), canvas: (int, int), v: Point3) -> Result<
    Point2,
    ProjectionError,
> {
    if v.z.raw <= 0 {
        Err(ProjectionError::BehindCamera)
    } else {
        viewport_point(viewport, canvas, perspective(v.x, v.z), perspective(v.y, v.z))
    }
}

/// The canvas points of the given points of camera space, each projected.
/// The first point that cannot be projected is reported.
pub open spec fn project_each(viewport: (int, int), canvas: (int, int), vertices: Seq<Point3>) -> Result<
    Seq<Point2>,
    RenderError,
>
    decreases vertices.len(),
{
    if vertices.len() == 0 {
        Ok(Seq::empty())
    } else {
        match project_each(viewport, canvas, vertices.drop_last()) {
            Err(e) => Err(e),
            Ok(points) => match projected(viewport, canvas, vertices.last()) {
                Err(e) => Err(RenderError::Projection(e)),
                Ok(p) => Ok(points.push(p)),
            },
        }
    }
}

/// The `vertices`, each transformed by `m`.
pub open spec fn transformed(vertices: Seq<Point3>, m: Matrix4) -> Seq<Point3> {
    vertices.map_values(|v: Point3| m.transform_point_spec(v))
}

/// The canvas points of the `vertices`, each transformed by `m` and then
/// projected. The first vertex that cannot be projected is reported.
pub open spec fn project_all(
    viewport: (int, int),
    canvas: (int, int),
    vertices: Seq<Point3>,
    m: Matrix4,
) -> Result<Seq<Point2>, RenderError> {
    project_each(viewport, canvas, transformed(vertices, m))
}

/// Scales one viewport coordinate to the canvas.
fn scaled_to_canvas(v: Fixed, canvas_dim: usize, viewport_dim: usize) -> (c: i32)
    requires
        viewport_dim > 0,
    ensures
        c == to_canvas(v, canvas_dim as int, viewport_dim as int),
{
    proof {
        lemma_scaling_fits(v.raw as int, canvas_dim as int, viewport_dim as int);
    }
    let num: i128 = v.raw as i128 * canvas_dim as i128;
    let den: i128 = viewport_dim as i128 * ONE_RAW as i128;
    let q: i128 = num / den;
    if q < i32::MIN as i128 {
        i32::MIN
    } else if q > i32::MAX as i128 {
        i32::MAX
    } else {
        q as i32
    }
}

/// The products that scaling a coordinate forms fit in 128 bits.
proof fn lemma_scaling_fits(v: int, canvas_dim: int, viewport_dim: int)
    by (nonlinear_arith)
    requires
        -0x8000_0000 <= v <= 0x7fff_ffff,
        0 <= canvas_dim <= 0xffff_ffff_ffff_ffff,
        0 < viewport_dim <= 0xffff_ffff_ffff_ffff,
    ensures
        -0x8000_0000_0000_0000_0000_0000 <= v * canvas_dim <= 0x8000_0000_0000_0000_0000_0000,
        0 < viewport_dim * 65536 <= 0x1_0000_0000_0000_0000_0000,
{
}

/// Transforms every one of the `vertices` by `m`.
pub(crate) fn transform_all(vertices: &Vec<Point3>, m: Matrix4) -> (moved: Vec<Point3>)
    ensures
        moved@ == transformed(vertices@, m),
{
    let mut moved: Vec<Point3> = Vec::new();
    let mut i: usize = 0;
    while i < vertices.len()
        invariant
            i <= vertices.len(),
            moved@ == transformed(vertices@, m).take(i as int),
        decreases vertices.len() - i,
    {
        moved.push(m.transform_point(vertices[i]));
        assert(moved@ =~= transformed(vertices@, m).take(i + 1));
        i += 1;
    }
    assert(moved@ =~= transformed(vertices@, m));
    moved
}

impl Scene {
    /// The width and the height of the viewport.
    pub open spec fn viewport(&self) -> (int, int) {
        (self.width as int, self.height as int)
    }

    /// Scales a point of the viewport to the canvas: each coordinate by the
    /// ratio of the canvas dimension to the viewport dimension on its axis,
    /// rounded towards zero.
    pub fn viewport_to_canvas(&self, canvas: &Canvas, x: Fixed, y: Fixed) -> (res: Result<
        Point2,
        ProjectionError,
    >)
        ensures
            res == viewport_point(self.viewport(), canvas.dims(), x, y),
    {
        if self.width == 0 || self.height == 0 {
            return Err(ProjectionError::EmptyViewport);
        }
        Ok(
            Point2::new(
                scaled_to_canvas(x, canvas.width(), self.width),
                scaled_to_canvas(y, canvas.height(), self.height),
            ),
        )
    }

    /// Projects a point of camera space onto the canvas: its `x` and `y` are
    /// divided by its depth, scaled by the projection distance, and the
    /// result is scaled from the viewport to the canvas.
    ///
    /// A point in the plane of the camera or behind it is reported.
    pub fn project_vertex(&self, canvas: &Canvas, v: Point3) -> (res: Result<
        Point2,
        ProjectionError,
    >)
        ensures
            res == projected(self.viewport(), canvas.dims(), v),
    {
        if v.z.raw <= 0 {
            return Err(ProjectionError::BehindCamera);
        }
        let d = Fixed { raw: PROJECTION_PLANE_Z_RAW };
        let x = v.x.times(d).divided_by(v.z);
        let y = v.y.times(d).divided_by(v.z);
        match (x, y) {
            (Some(x), Some(y)) => self.viewport_to_canvas(canvas, x, y),
            _ => Err(ProjectionError::BehindCamera),
        }
    }

    /// Projects every one of the given points of camera space onto the canvas.
    pub(crate) fn project_points(&self, canvas: &Canvas, vertices: &Vec<Point3>) -> (res: Result<
        Vec<Point2>,
        RenderError,
    >)
        ensures
            match res {
                Ok(points) => project_each(self.viewport(), canvas.dims(), vertices@) == Ok::<
                    Seq<Point2>,
                    RenderError,
                >(points@),
                Err(e) => project_each(self.viewport(), canvas.dims(), vertices@) == Err::<
                    Seq<Point2>,
                    RenderError,
                >(e),
            },
    {
        let mut points: Vec<Point2> = Vec::new();
        let mut i: usize = 0;
        while i < vertices.len()
            invariant
                i <= vertices.len(),
                project_each(self.viewport(), canvas.dims(), vertices@.take(i as int)) == Ok::<
                    Seq<Point2>,
                    RenderError,
                >(points@),
            decreases vertices.len() - i,
        {
            proof {
                assert(vertices@.take(i + 1).drop_last() =~= vertices@.take(i as int));
                assert(vertices@.take(i + 1).last() == vertices@[i as int]);
            }
            match self.project_vertex(canvas, vertices[i]) {
                Ok(p) => {
                    points.push(p);
                },
                Err(e) => {
                    proof {
                        lemma_project_each_fails(
                            self.viewport(),
                            canvas.dims(),
                            vertices@,
                            i + 1,
                        );
                    }
                    return Err(RenderError::Projection(e));
                },
            }
            i += 1;
        }
        assert(vertices@.take(i as int) =~= vertices@);
        Ok(points)
    }
}

/// A projection that fails for the first `n` points fails for all.
proof fn lemma_project_each_fails(
    viewport: (int, int),
    canvas: (int, int),
    vertices: Seq<Point3>,
    n: int,
)
    requires
        0 <= n <= vertices.len(),
        project_each(viewport, canvas, vertices.take(n)) is Err,
    ensures
        project_each(viewport, canvas, vertices) == project_each(viewport, canvas, vertices.take(n)),
    decreases vertices.len(),
{
    if n < vertices.len() {
        assert(vertices.drop_last().take(n) =~= vertices.take(n));
        lemma_project_each_fails(viewport, canvas, vertices.drop_last(), n);
    } else {
        assert(vertices.take(n) =~= vertices);
    }
}

/// A projection that succeeds yields one canvas point for each point given.
pub(crate) proof fn lemma_project_each_len(viewport: (int, int), canvas: (int, int), vertices: Seq<Point3>)
    ensures
        project_each(viewport, canvas, vertices) matches Ok(points) ==> points.len()
            == vertices.len(),
    decreases vertices.len(),
{
    if vertices.len() > 0 {
        lemma_project_each_len(viewport, canvas, vertices.drop_last());
    }
}

/// A fraction of absolute value below `limit / 2` has an integer part within
/// the columns, or the rows, of a canvas `limit` wide, or high.
proof fn lemma_half_range(num: int, den: int, limit: int)
    requires
        den > 0,
        limit > 0,
        -(den * limit) < 2 * num < den * limit,
    ensures
        0 <= trunc_div(num, den) + limit / 2 < limit,
        0 <= limit / 2 - trunc_div(num, den) < limit,
{
    let t = trunc_div(num, den);
    if num >= 0 {
        assert(0 <= t && 2 * t < limit) by (nonlinear_arith)
            requires
                den > 0,
                0 <= 2 * num < den * limit,
                t == num / den,
        ;
    } else {
        assert(t <= 0 && -limit < 2 * t) by (nonlinear_arith)
            requires
                den > 0,
                0 < 2 * (-num) < den * limit,
                t == -((-num) / den),
        ;
    }
}

/// Every point of the viewport has its pixel: a viewport point that lies
/// less than half the width of the viewport from its middle, and less than
/// half its height, is scaled to a point on the canvas, whatever the size
/// of the canvas.
pub proof fn lemma_viewport_on_canvas(viewport: (int, int), canvas: (int, int), x: Fixed, y: Fixed)
    requires
        viewport.0 > 0,
        viewport.1 > 0,
        canvas.0 > 0,
        canvas.1 > 0,
        -(viewport.0 * ONE_RAW) < 2 * x.raw < viewport.0 * ONE_RAW,
        -(viewport.1 * ONE_RAW) < 2 * y.raw < viewport.1 * ONE_RAW,
    ensures
        viewport_point(viewport, canvas, x, y) matches Ok(p) && within(
            canvas.0,
            canvas.1,
            p.x as int,
            p.y as int,
        ),
{
    assert(-(viewport.0 * ONE_RAW * canvas.0) < 2 * (x.raw * canvas.0) < viewport.0 * ONE_RAW
        * canvas.0) by (nonlinear_arith)
        requires
            canvas.0 > 0,
            -(viewport.0 * ONE_RAW) < 2 * x.raw < viewport.0 * ONE_RAW,
    ;
    assert(-(viewport.1 * ONE_RAW * canvas.1) < 2 * (y.raw * canvas.1) < viewport.1 * ONE_RAW
        * canvas.1) by (nonlinear_arith)
        requires
            canvas.1 > 0,
            -(viewport.1 * ONE_RAW) < 2 * y.raw < viewport.1 * ONE_RAW,
    ;
    assert(viewport.0 * ONE_RAW > 0 && viewport.1 * ONE_RAW > 0) by (nonlinear_arith)
        requires
            viewport.0 > 0,
            viewport.1 > 0,
            ONE_RAW == 65536,
    ;
    lemma_half_range(x.raw * canvas.0, viewport.0 * ONE_RAW, canvas.0);
    lemma_half_range(y.raw * canvas.1, viewport.1 * ONE_RAW, canvas.1);
}

} // verus!
