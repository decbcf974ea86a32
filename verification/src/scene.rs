//! The scene: a camera, models placed in space, and the frame they make.

use vstd::prelude::*;
use crate::canvas::{Canvas, RasterizationError};
use crate::fixed::Fixed;
use crate::matrix::Matrix4;
use crate::model::{Instance, Model, Triangle};
use crate::point::{Point2, Point3};
use crate::projection::{ProjectionError, project_all, transform_all};
use crate::raster::first_outside;

verus! {

/// Why a frame was not rendered.
#[derive(Debug, Clone, Copy, PartialEq, Eq, Structural)]
pub enum RenderError {
    /// A vertex could not be projected.
    Projection(ProjectionError),
    /// A projected vertex lies outside the canvas.
    Rasterization(RasterizationError),
    /// A triangle names a vertex that its model does not have.
    MissingVertex(usize),
    /// An instance names a model that the scene does not have.
    MissingModel(usize),
}

/// Where the camera stands and which way it looks.
#[derive(Debug, Clone, Copy)]
pub struct Camera {
    pub position: Point3,
    pub orientation: Matrix4,
}

/// A camera, the models, their instances, and the size of the viewport
/// through which the camera looks.
pub struct Scene {
    pub width: usize,
    pub height: usize,
    pub models: Vec<Model>,
    pub instances: Vec<Instance>,
    pub camera: Camera,
}

/// What keeps the triangle `t` from being drawn, if anything does: a vertex
/// that is not among the `points`, or one that lies outside the canvas. Of
/// several, the one that belongs to the earliest vertex is named.
pub open spec fn triangle_error(canvas: (int, int), t: Triangle, points: Seq<Point2>) -> Option<
    RenderError,
> {
    if t.v.0 >= points.len() {
        Some(RenderError::MissingVertex(t.v.0))
    } else if t.v.1 >= points.len() {
        Some(RenderError::MissingVertex(t.v.1))
    } else if t.v.2 >= points.len() {
        Some(RenderError::MissingVertex(t.v.2))
    } else {
        match first_outside(
            canvas.0,
            canvas.1,
            seq![points[t.v.0 as int], points[t.v.1 as int], points[t.v.2 as int]],
        ) {
            Some(e) => Some(RenderError::Rasterization(e)),
            None => None,
        }
    }
}

/// The colour of the pixel `(x, y)` once the outlines of the `triangles`
/// have been drawn in order over a pixel of colour `base`: the colour of the
/// last triangle whose outline holds the pixel, and `base` if none does.
pub open spec fn wire_color(
    triangles: Seq<Triangle>,
    points: Seq<Point2>,
    x: int,
    y: int,
    base: u32,
) -> u32
    decreases triangles.len(),
{
    if triangles.len() == 0 {
        base
    } else {
        let t = triangles.last();
        if Canvas::on_wireframe(
            points[t.v.0 as int],
            points[t.v.1 as int],
            points[t.v.2 as int],
            x,
            y,
        ) {
            t.color
        } else {
            wire_color(triangles.drop_last(), points, x, y, base)
        }
    }
}

/// What keeps the `triangles` from being drawn, if anything does: the error
/// of the first triangle that has one.
pub open spec fn first_triangle_error(
    canvas: (int, int),
    triangles: Seq<Triangle>,
    points: Seq<Point2>,
) -> Option<RenderError>
    decreases triangles.len(),
{
    if triangles.len() == 0 {
        None
    } else {
        match first_triangle_error(canvas, triangles.drop_last(), points) {
            Some(e) => Some(e),
            None => triangle_error(canvas, triangles.last(), points),
        }
    }
}

/// The canvas points of a model seen through the transform `m`, if the
/// model can be drawn: if every vertex can be projected, every triangle
/// names vertices that the model has, and those lie on the canvas.
pub open spec fn model_points(
    viewport: (int, int),
    canvas: (int, int),
    vertices: Seq<Point3>,
    triangles: Seq<Triangle>,
    m: Matrix4,
) -> Result<Seq<Point2>, RenderError> {
    match project_all(viewport, canvas, vertices, m) {
        Err(e) => Err(e),
        Ok(points) => match first_triangle_error(canvas, triangles, points) {
            Some(e) => Err(e),
            None => Ok(points),
        },
    }
}

impl Scene {
    /// The transform from world space to camera space: the translation that
    /// brings the camera to the origin, followed by the inverse of the
    /// orientation of the camera, which for a rotation is its transpose.
    pub open spec fn camera_transform(&self) -> Matrix4 {
        self.camera.orientation.transpose_spec().mul_m_spec(
            Matrix4::translation_spec(self.camera.position.neg_spec()),
        )
    }

    /// The canvas points of the `i`-th instance, if it can be drawn.
    pub open spec fn instance_points(&self, canvas: (int, int), i: int) -> Result<
        Seq<Point2>,
        RenderError,
    > {
        let instance = self.instances[i];
        if instance.model >= self.models.len() {
            Err(RenderError::MissingModel(instance.model))
        } else {
            model_points(
                self.viewport(),
                canvas,
                self.models[instance.model as int].vertices@,
                self.models[instance.model as int].triangles@,
                self.camera_transform().mul_m_spec(instance.transform),
            )
        }
    }

    /// What keeps the first `n` instances from being drawn, if anything
    /// does: the error of the first instance that has one.
    pub open spec fn first_error(&self, canvas: (int, int), n: int) -> Option<RenderError>
        decreases n,
    {
        if n <= 0 {
            None
        } else {
            match self.first_error(canvas, n - 1) {
                Some(e) => Some(e),
                None => match self.instance_points(canvas, n - 1) {
                    Err(e) => Some(e),
                    Ok(_) => None,
                },
            }
        }
    }

    /// The colour of the pixel `(x, y)` in the frame of the first `n`
    /// instances: black where no outline passes, and elsewhere the colour of
    /// the last triangle, of the last instance, whose outline holds the
    /// pixel. Nothing is hidden by depth: what is drawn later covers what
    /// was drawn before.
    pub open spec fn frame_color(&self, canvas: (int, int), n: int, x: int, y: int) -> u32
        decreases n,
    {
        if n <= 0 {
            0
        } else {
            wire_color(
                self.models[self.instances[n - 1].model as int].triangles@,
                self.instance_points(canvas, n - 1)->Ok_0,
                x,
                y,
                self.frame_color(canvas, n - 1, x, y),
            )
        }
    }

    /// A scene with no models yet, its camera where the examples put it:
    /// at `(-3, 1, 2)`, turned about the `y` axis by a twelfth of a turn.
    pub fn new(width: usize, height: usize) -> (scene: Scene)
        ensures
            scene.width == width,
            scene.height == height,
            scene.models@.len() == 0,
            scene.instances@.len() == 0,
            scene.camera.position == (Point3 {
                x: Fixed { raw: (-196608i32) },
                y: Fixed { raw: 65536 },
                z: Fixed { raw: 131072 },
            }),
            scene.camera.orientation == Matrix4::rotation_y_spec(
                Fixed { raw: 56756 },
                Fixed { raw: 32768 },
            ),
    {
        let camera = Camera {
            position: Point3::new(Fixed::from_int(-3), Fixed::from_int(1), Fixed::from_int(2)),
            orientation: Matrix4::from_rotation_y(Fixed { raw: 56756 }, Fixed { raw: 32768 }),
        };
        Scene { width, height, models: Vec::new(), instances: Vec::new(), camera }
    }

    /// The transform from world space to camera space.
    pub fn camera_matrix(&self) -> (m: Matrix4)
        ensures
            m == self.camera_transform(),
    {
        self.camera.orientation.transpose().mul_m(
            Matrix4::from_translation(self.camera.position.neg()),
        )
    }

    /// Draws the outline of one triangle of a model, given the canvas points
    /// of the vertices of the model.
    ///
    /// A triangle that names a vertex beyond the given points, or whose
    /// points do not all lie on the canvas, is reported and nothing is
    /// painted.
    pub fn render_triangle(&self, canvas: &mut Canvas, triangle: &Triangle, projected: &[Point2]) -> (res:
        Result<(), RenderError>)
        requires
            old(canvas).wf(),
        ensures
            final(canvas).wf(),
            final(canvas).same_shape(old(canvas)),
            res is Ok <==> triangle_error(old(canvas).dims(), *triangle, projected@) is None,
            res is Ok ==> forall|x: int, y: int|
                old(canvas).in_bounds(x, y) ==> #[trigger] final(canvas).pixel(x, y) == wire_color(
                    seq![*triangle],
                    projected@,
                    x,
                    y,
                    old(canvas).pixel(x, y),
                ),
            res is Err ==> final(canvas)@ == old(canvas)@,
            res matches Err(e) ==> Some(e) == triangle_error(
                old(canvas).dims(),
                *triangle,
                projected@,
            ),
    {
        let n = projected.len();
        if triangle.v.0 >= n {
            return Err(RenderError::MissingVertex(triangle.v.0));
        }
        if triangle.v.1 >= n {
            return Err(RenderError::MissingVertex(triangle.v.1));
        }
        if triangle.v.2 >= n {
            return Err(RenderError::MissingVertex(triangle.v.2));
        }
        proof {
            reveal_with_fuel(wire_color, 2);
            assert(seq![*triangle].last() == *triangle);
            assert(seq![*triangle].drop_last().len() == 0);
        }
        match canvas.draw_wireframe(
            &projected[triangle.v.0],
            &projected[triangle.v.1],
            &projected[triangle.v.2],
            triangle.color,
        ) {
            Ok(()) => Ok(()),
            Err(e) => Err(RenderError::Rasterization(e)),
        }
    }

    /// Transforms and projects every vertex of `model`, and finds out
    /// whether every triangle of the model can be drawn at the points found.
    fn project_model(&self, model: &Model, transform: Matrix4, canvas: &Canvas) -> (res: Result<
        Vec<Point2>,
        RenderError,
    >)
        ensures
            match res {
                Ok(points) => model_points(
                    self.viewport(),
                    canvas.dims(),
                    model.vertices@,
                    model.triangles@,
                    transform,
                ) == Ok::<Seq<Point2>, RenderError>(points@),
                Err(e) => model_points(
                    self.viewport(),
                    canvas.dims(),
                    model.vertices@,
                    model.triangles@,
                    transform,
                ) == Err::<Seq<Point2>, RenderError>(e),
            },
    {
        let in_camera_space = transform_all(&model.vertices, transform);
        let points = match self.project_points(canvas, &in_camera_space) {
            Ok(points) => points,
            Err(e) => {
                return Err(e);
            },
        };
        let mut j: usize = 0;
        while j < model.triangles.len()
            invariant
                j <= model.triangles.len(),
                project_all(self.viewport(), canvas.dims(), model.vertices@, transform) == Ok::<
                    Seq<Point2>,
                    RenderError,
                >(points@),
                first_triangle_error(canvas.dims(), model.triangles@.take(j as int), points@) is None,
            decreases model.triangles.len() - j,
        {
            proof {
                assert(model.triangles@.take(j + 1).drop_last() =~= model.triangles@.take(j as int));
                assert(model.triangles@.take(j + 1).last() == model.triangles@[j as int]);
            }
            if let Some(e) = triangle_fault(canvas, &model.triangles[j], &points) {
                proof {
                    lemma_triangle_error_stays(canvas.dims(), model.triangles@, points@, j + 1);
                }
                return Err(e);
            }
            j += 1;
        }
        assert(model.triangles@.take(j as int) =~= model.triangles@);
        Ok(points)
    }

    /// Draws the outlines of `triangles`, in order, at the given points.
    fn paint_triangles(&self, canvas: &mut Canvas, triangles: &Vec<Triangle>, points: &Vec<Point2>)
        requires
            old(canvas).wf(),
            first_triangle_error(old(canvas).dims(), triangles@, points@) is None,
        ensures
            final(canvas).wf(),
            final(canvas).same_shape(old(canvas)),
            forall|x: int, y: int|
                old(canvas).in_bounds(x, y) ==> #[trigger] final(canvas).pixel(x, y) == wire_color(
                    triangles@,
                    points@,
                    x,
                    y,
                    old(canvas).pixel(x, y),
                ),
    {
        let mut i: usize = 0;
        while i < triangles.len()
            invariant
                canvas.wf(),
                canvas.same_shape(old(canvas)),
                i <= triangles.len(),
                first_triangle_error(old(canvas).dims(), triangles@, points@) is None,
                forall|x: int, y: int|
                    old(canvas).in_bounds(x, y) ==> #[trigger] canvas.pixel(x, y) == wire_color(
                        triangles@.take(i as int),
                        points@,
                        x,
                        y,
                        old(canvas).pixel(x, y),
                    ),
            decreases triangles.len() - i,
        {
            proof {
                lemma_no_triangle_error(old(canvas).dims(), triangles@, points@, i as int);
                assert(triangles@.take(i + 1).drop_last() =~= triangles@.take(i as int));
                assert(triangles@.take(i + 1).last() == triangles@[i as int]);
                reveal_with_fuel(wire_color, 2);
                assert(seq![triangles@[i as int]].last() == triangles@[i as int]);
                assert(seq![triangles@[i as int]].drop_last().len() == 0);
            }
            let drawn = self.render_triangle(canvas, &triangles[i], points.as_slice());
            assert(drawn is Ok);
            i += 1;
        }
        assert(triangles@.take(i as int) =~= triangles@);
    }

    /// Draws a model as seen through `transform`: every vertex is
    /// transformed and projected onto the canvas, and the outline of every
    /// triangle is drawn between the points of its three vertices.
    ///
    /// Nothing is painted unless the whole model can be drawn: a vertex that
    /// cannot be projected, or a triangle that cannot be drawn, is reported.
    pub fn render_model(&self, model: &Model, transform: Matrix4, canvas: &mut Canvas) -> (res:
        Result<(), RenderError>)
        requires
            old(canvas).wf(),
        ensures
            final(canvas).wf(),
            final(canvas).same_shape(old(canvas)),
            match model_points(
                self.viewport(),
                old(canvas).dims(),
                model.vertices@,
                model.triangles@,
                transform,
            ) {
                Ok(points) => res is Ok && forall|x: int, y: int|
                    old(canvas).in_bounds(x, y) ==> #[trigger] final(canvas).pixel(x, y)
                        == wire_color(model.triangles@, points, x, y, old(canvas).pixel(x, y)),
                Err(e) => res == Err::<(), RenderError>(e) && final(canvas)@ == old(canvas)@,
            },
    {
        match self.project_model(model, transform, canvas) {
            Err(e) => Err(e),
            Ok(points) => {
                self.paint_triangles(canvas, &model.triangles, &points);
                Ok(())
            },
        }
    }

    /// Finds the canvas points of the `i`-th instance, as seen through the
    /// transform `m_camera` of the camera.
    fn project_instance(&self, i: usize, m_camera: Matrix4, canvas: &Canvas) -> (res: Result<
        Vec<Point2>,
        RenderError,
    >)
        requires
            i < self.instances.len(),
            m_camera == self.camera_transform(),
        ensures
            match res {
                Ok(points) => self.instance_points(canvas.dims(), i as int) == Ok::<
                    Seq<Point2>,
                    RenderError,
                >(points@),
                Err(e) => self.instance_points(canvas.dims(), i as int) == Err::<
                    Seq<Point2>,
                    RenderError,
                >(e),
            },
    {
        let instance = &self.instances[i];
        if instance.model >= self.models.len() {
            return Err(RenderError::MissingModel(instance.model));
        }
        let m = m_camera.mul_m(instance.transform);
        self.project_model(&self.models[instance.model], m, canvas)
    }

    /// Renders one frame: the canvas is cleared to black, and the instances
    /// are drawn in order, each through the transform of the camera
    /// multiplied by its own.
    ///
    /// Nothing is painted, nor cleared, unless the whole frame can be drawn:
    /// the first instance that cannot is reported with its error.
    pub fn render(&self, canvas: &mut Canvas) -> (res: Result<(), RenderError>)
        requires
            old(canvas).wf(),
        ensures
            final(canvas).wf(),
            final(canvas).same_shape(old(canvas)),
            res is Ok <==> self.first_error(old(canvas).dims(), self.instances@.len() as int)
                is None,
            res is Ok ==> forall|x: int, y: int|
                old(canvas).in_bounds(x, y) ==> #[trigger] final(canvas).pixel(x, y)
                    == self.frame_color(old(canvas).dims(), self.instances@.len() as int, x, y),
            res is Err ==> final(canvas)@ == old(canvas)@,
            res matches Err(e) ==> Some(e) == self.first_error(
                old(canvas).dims(),
                self.instances@.len() as int,
            ),
    {
        let m_camera = self.camera_matrix();
        let mut frames: Vec<Vec<Point2>> = Vec::new();
        let mut i: usize = 0;
        while i < self.instances.len()
            invariant
                canvas.wf(),
                canvas@ == old(canvas)@,
                canvas.same_shape(old(canvas)),
                i <= self.instances.len(),
                m_camera == self.camera_transform(),
                frames.len() == i,
                self.first_error(old(canvas).dims(), i as int) is None,
                forall|j: int|
                    0 <= j < i ==> self.instance_points(old(canvas).dims(), j) == Ok::<
                        Seq<Point2>,
                        RenderError,
                    >((#[trigger] frames[j])@),
            decreases self.instances.len() - i,
        {
            match self.project_instance(i, m_camera, canvas) {
                Err(e) => {
                    proof {
                        self.lemma_error_stays(
                            old(canvas).dims(),
                            i + 1,
                            self.instances@.len() as int,
                        );
                    }
                    return Err(e);
                },
                Ok(points) => {
                    frames.push(points);
                },
            }
            i += 1;
        }
        canvas.fill(0);
        let mut k: usize = 0;
        while k < self.instances.len()
            invariant
                canvas.wf(),
                canvas.same_shape(old(canvas)),
                k <= self.instances.len(),
                frames.len() == self.instances.len(),
                self.first_error(old(canvas).dims(), self.instances@.len() as int) is None,
                forall|j: int|
                    0 <= j < frames.len() ==> self.instance_points(old(canvas).dims(), j) == Ok::<
                        Seq<Point2>,
                        RenderError,
                    >((#[trigger] frames[j])@),
                forall|x: int, y: int|
                    old(canvas).in_bounds(x, y) ==> #[trigger] canvas.pixel(x, y)
                        == self.frame_color(old(canvas).dims(), k as int, x, y),
            decreases self.instances.len() - k,
        {
            let instance = &self.instances[k];
            proof {
                assert(self.instance_points(old(canvas).dims(), k as int) == Ok::<
                    Seq<Point2>,
                    RenderError,
                >(frames[k as int]@));
            }
            self.paint_triangles(canvas, &self.models[instance.model].triangles, &frames[k]);
            k += 1;
        }
        Ok(())
    }

    /// An error among the first `n` instances is the error of the first `m`,
    /// for any `m` from `n` on.
    proof fn lemma_error_stays(&self, canvas: (int, int), n: int, m: int)
        requires
            0 <= n <= m,
            self.first_error(canvas, n) is Some,
        ensures
            self.first_error(canvas, m) == self.first_error(canvas, n),
        decreases m - n,
    {
        if n < m {
            self.lemma_error_stays(canvas, n, m - 1);
        }
    }
}

/// What keeps one triangle from being drawn, if anything does.
fn triangle_fault(canvas: &Canvas, triangle: &Triangle, points: &Vec<Point2>) -> (fault: Option<
    RenderError,
>)
    ensures
        fault == triangle_error(canvas.dims(), *triangle, points@),
{
    let n = points.len();
    if triangle.v.0 >= n {
        Some(RenderError::MissingVertex(triangle.v.0))
    } else if triangle.v.1 >= n {
        Some(RenderError::MissingVertex(triangle.v.1))
    } else if triangle.v.2 >= n {
        Some(RenderError::MissingVertex(triangle.v.2))
    } else {
        match canvas.first_vertex_outside(
            &points[triangle.v.0],
            &points[triangle.v.1],
            &points[triangle.v.2],
        ) {
            Some(e) => Some(RenderError::Rasterization(e)),
            None => None,
        }
    }
}

/// Where no triangle has an error, each one can be drawn.
proof fn lemma_no_triangle_error(
    canvas: (int, int),
    triangles: Seq<Triangle>,
    points: Seq<Point2>,
    i: int,
)
    requires
        first_triangle_error(canvas, triangles, points) is None,
        0 <= i < triangles.len(),
    ensures
        triangle_error(canvas, triangles[i], points) is None,
        first_triangle_error(canvas, triangles.take(i), points) is None,
    decreases triangles.len(),
{
    if i < triangles.len() - 1 {
        lemma_no_triangle_error(canvas, triangles.drop_last(), points, i);
        assert(triangles.drop_last().take(i) =~= triangles.take(i));
    } else {
        assert(triangles.drop_last() =~= triangles.take(i));
    }
}

/// An error among the first `n` triangles is the error of them all.
proof fn lemma_triangle_error_stays(
    canvas: (int, int),
    triangles: Seq<Triangle>,
    points: Seq<Point2>,
    n: int,
)
    requires
        0 <= n <= triangles.len(),
        first_triangle_error(canvas, triangles.take(n), points) is Some,
    ensures
        first_triangle_error(canvas, triangles, points) == first_triangle_error(
            canvas,
            triangles.take(n),
            points,
        ),
    decreases triangles.len(),
{
    if n < triangles.len() {
        assert(triangles.drop_last().take(n) =~= triangles.take(n));
        lemma_triangle_error_stays(canvas, triangles.drop_last(), points, n);
    } else {
        assert(triangles.take(n) =~= triangles);
    }
}

} // verus!
