//! Models: the vertices and triangles of a shape, and its instances in the world.

use vstd::prelude::*;
use crate::color::Color;
use crate::fixed::{Fixed, ONE_RAW};
use crate::matrix::Matrix4;
use crate::point::Point3;

verus! {

/// Three vertices of a model, by their indices, and the colour of the
/// triangle they span.
#[derive(Debug, Clone, Copy)]
pub struct Triangle {
    pub v: (usize, usize, usize),
    pub color: u32,
}

impl Triangle {
    pub fn new(v: (usize, usize, usize), color: u32) -> (t: Triangle)
        ensures
            t.v == v,
            t.color == color,
    {
        Triangle { v, color }
    }
}

/// The vertices of a shape and the triangles that they span.
pub struct Model {
    pub vertices: Vec<Point3>,
    pub triangles: Vec<Triangle>,
}

/// A model placed in the world: the model, by its index in the scene, and
/// the transform that takes it from its own space to its place.
#[derive(Debug, Clone, Copy)]
pub struct Instance {
    pub model: usize,
    pub transform: Matrix4,
}

/// A packed colour at full intensity.
pub open spec fn full(r: u8, g: u8, b: u8) -> u32 {
    (Color { r, g, b, h: Fixed { raw: ONE_RAW } }).packed()
}

/// The point of space whose coordinates are the given whole numbers of halves.
pub open spec fn halves(x: int, y: int, z: int) -> Point3 {
    Point3 {
        x: Fixed { raw: (x * 32768) as i32 },
        y: Fixed { raw: (y * 32768) as i32 },
        z: Fixed { raw: (z * 32768) as i32 },
    }
}

/// The point of space whose coordinates are the given whole numbers of halves.
pub(crate) fn point_of_halves(x: i16, y: i16, z: i16) -> (p: Point3)
    ensures
        p == halves(x as int, y as int, z as int),
{
    Point3 {
        x: Fixed { raw: x as i32 * 32768 },
        y: Fixed { raw: y as i32 * 32768 },
        z: Fixed { raw: z as i32 * 32768 },
    }
}

/// The eight corners of the cube of side two about the origin.
pub open spec fn cube_vertices() -> Seq<Point3> {
    seq![
        halves(2, 2, 2),
        halves(-2, 2, 2),
        halves(-2, -2, 2),
        halves(2, -2, 2),
        halves(2, 2, -2),
        halves(-2, 2, -2),
        halves(-2, -2, -2),
        halves(2, -2, -2),
    ]
}

/// The twelve triangles of the cube, two to a face, each face in a colour
/// of its own.
pub open spec fn cube_triangles() -> Seq<Triangle> {
    seq![
        Triangle { v: (0, 1, 2), color: full(255, 0, 0) },
        Triangle { v: (0, 2, 3), color: full(255, 0, 0) },
        Triangle { v: (4, 0, 3), color: full(0, 255, 0) },
        Triangle { v: (4, 3, 7), color: full(0, 255, 0) },
        Triangle { v: (5, 4, 7), color: full(0, 0, 255) },
        Triangle { v: (5, 7, 6), color: full(0, 0, 255) },
        Triangle { v: (1, 5, 6), color: full(255, 255, 0) },
        Triangle { v: (1, 6, 2), color: full(255, 255, 0) },
        Triangle { v: (4, 5, 1), color: full(255, 0, 255) },
        Triangle { v: (4, 1, 0), color: full(255, 0, 255) },
        Triangle { v: (2, 6, 7), color: full(0, 255, 255) },
        Triangle { v: (2, 7, 3), color: full(0, 255, 255) },
    ]
}

impl Model {
    pub fn new(vertices: Vec<Point3>, triangles: Vec<Triangle>) -> (m: Model)
        ensures
            m.vertices == vertices,
            m.triangles == triangles,
    {
        Model { vertices, triangles }
    }

    /// The cube of side two about the origin.
    pub fn cube() -> (m: Model)
        ensures
            m.vertices@ == cube_vertices(),
            m.triangles@ == cube_triangles(),
    {
        let vertices = vec![
            point_of_halves(2, 2, 2),
            point_of_halves(-2, 2, 2),
            point_of_halves(-2, -2, 2),
            point_of_halves(2, -2, 2),
            point_of_halves(2, 2, -2),
            point_of_halves(-2, 2, -2),
            point_of_halves(-2, -2, -2),
            point_of_halves(2, -2, -2),
        ];
        let triangles = vec![
            Triangle::new((0, 1, 2), u32::from(Color::red())),
            Triangle::new((0, 2, 3), u32::from(Color::red())),
            Triangle::new((4, 0, 3), u32::from(Color::green())),
            Triangle::new((4, 3, 7), u32::from(Color::green())),
            Triangle::new((5, 4, 7), u32::from(Color::blue())),
            Triangle::new((5, 7, 6), u32::from(Color::blue())),
            Triangle::new((1, 5, 6), u32::from(Color::yellow())),
            Triangle::new((1, 6, 2), u32::from(Color::yellow())),
            Triangle::new((4, 5, 1), u32::from(Color::purple())),
            Triangle::new((4, 1, 0), u32::from(Color::purple())),
            Triangle::new((2, 6, 7), u32::from(Color::cyan())),
            Triangle::new((2, 7, 3), u32::from(Color::cyan())),
        ];
        assert(vertices@ =~= cube_vertices());
        assert(triangles@ =~= cube_triangles());
        Model::new(vertices, triangles)
    }
}

impl Instance {
    /// The transform that places a model: it is scaled first, then turned,
    /// then moved to its position.
    pub open spec fn placement(position: Point3, orientation: Matrix4, scale: Fixed) -> Matrix4 {
        Matrix4::translation_spec(position).mul_m_spec(orientation).mul_m_spec(
            Matrix4::scale_spec(scale),
        )
    }

    /// The model of index `model`, scaled by `scale`, turned by
    /// `orientation` and moved to `position`.
    pub fn new(model: usize, position: Point3, orientation: Matrix4, scale: Fixed) -> (instance:
        Instance)
        ensures
            instance.model == model,
            instance.transform == Instance::placement(position, orientation, scale),
    {
        let transform = Matrix4::from_translation(position).mul_m(orientation).mul_m(
            Matrix4::from_scale(scale),
        );
        Instance { model, transform }
    }
}

} // verus!
