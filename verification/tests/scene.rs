use rasterizer::canvas::{Canvas, RasterizationError};
use rasterizer::color::Color;
use rasterizer::fixed::Fixed;
use rasterizer::matrix::Matrix4;
use rasterizer::model::{Instance, Model, Triangle};
use rasterizer::point::{Point2, Point3};
use rasterizer::projection::ProjectionError;
use rasterizer::scene::{Camera, RenderError, Scene};
use rasterizer::setup::{init_cube_scene, update_point_and_velocity, HEIGHT, WIDTH};

fn raw_point(x: i32, y: i32, z: i32) -> Point3 {
    Point3::new(Fixed { raw: x }, Fixed { raw: y }, Fixed { raw: z })
}

fn halves(x: i32, y: i32, z: i32) -> Point3 {
    raw_point(x * 32768, y * 32768, z * 32768)
}

fn origin() -> Point3 {
    raw_point(0, 0, 0)
}

/// A scene seen from the origin, looking along the `z` axis.
fn plain_scene(width: usize, height: usize) -> Scene {
    let mut scene = Scene::new(width, height);
    scene.camera = Camera { position: origin(), orientation: Matrix4::identity() };
    scene
}

/// A triangle in the plane `z = 1` that reaches a quarter of the viewport
/// to each side.
fn flat_triangle(color: u32) -> Model {
    Model::new(
        vec![
            raw_point(-16384, -16384, 65536),
            raw_point(16384, -16384, 65536),
            raw_point(0, 16384, 65536),
        ],
        vec![Triangle::new((0, 1, 2), color)],
    )
}

fn count(canvas: &Canvas, color: u32) -> usize {
    canvas.data().iter().filter(|&&px| px == color).count()
}

#[test]
fn triangle_new_keeps_vertices_and_colour() {
    let t = Triangle::new((4, 0, 3), u32::from(Color::green()));
    assert_eq!(t.v, (4, 0, 3));
    assert_eq!(t.color, 0x00FF00);
}

#[test]
fn scene_new_sets_the_camera() {
    let scene = Scene::new(1, 2);
    assert_eq!((scene.width, scene.height), (1, 2));
    assert!(scene.models.is_empty());
    assert!(scene.instances.is_empty());
    assert_eq!(scene.camera.position, halves(-6, 2, 4));
    assert_eq!(
        scene.camera.orientation,
        Matrix4::from_rotation_y(Fixed { raw: 56756 }, Fixed { raw: 32768 })
    );
}

#[test]
fn viewport_to_canvas_scales_each_axis() {
    let scene = plain_scene(1, 1);
    let canvas = Canvas::new(600, 600);
    let p = scene
        .viewport_to_canvas(&canvas, Fixed { raw: 32768 }, Fixed { raw: -32768 })
        .unwrap();
    assert_eq!((p.x, p.y), (300, -300));
    assert_eq!(p.h, Fixed::one());

    let scene = plain_scene(2, 4);
    let canvas = Canvas::new(600, 300);
    let p = scene
        .viewport_to_canvas(&canvas, Fixed::one(), Fixed::one())
        .unwrap();
    assert_eq!((p.x, p.y), (300, 75));
}

#[test]
fn viewport_to_canvas_rounds_towards_zero() {
    let scene = plain_scene(1, 1);
    let p = scene
        .viewport_to_canvas(&Canvas::new(5, 3), Fixed { raw: -16384 }, Fixed { raw: 21845 })
        .unwrap();
    assert_eq!((p.x, p.y), (-1, 0));
    let scene = plain_scene(2, 2);
    let p = scene
        .viewport_to_canvas(&Canvas::new(7, 7), Fixed::one(), Fixed::one().neg())
        .unwrap();
    assert_eq!((p.x, p.y), (3, -3));
}

#[test]
fn viewport_to_canvas_needs_a_viewport() {
    let canvas = Canvas::new(4, 4);
    for (width, height) in [(0, 1), (1, 0), (0, 0)] {
        assert_eq!(
            plain_scene(width, height).viewport_to_canvas(&canvas, Fixed::one(), Fixed::one()),
            Err(ProjectionError::EmptyViewport)
        );
    }
}

#[test]
fn project_vertex_divides_by_depth() {
    let scene = plain_scene(1, 1);
    let canvas = Canvas::new(600, 600);
    let p = scene.project_vertex(&canvas, halves(-4, -1, 10)).unwrap();
    assert_eq!((p.x, p.y), (-239, -59));
    let p = scene.project_vertex(&canvas, halves(-3, 0, 14)).unwrap();
    assert_eq!((p.x, p.y), (-128, 0));
    let p = scene.project_vertex(&canvas, halves(-2, 2, 4)).unwrap();
    assert_eq!((p.x, p.y), (-300, 300));
    let p = plain_scene(2, 4)
        .project_vertex(&Canvas::new(600, 300), halves(2, 2, 2))
        .unwrap();
    assert_eq!((p.x, p.y), (300, 75));
}

#[test]
fn project_vertex_needs_a_point_in_front_of_the_camera() {
    let scene = plain_scene(1, 1);
    let canvas = Canvas::new(600, 600);
    for z in [0, -1, -65536, i32::MIN] {
        assert_eq!(
            scene.project_vertex(&canvas, raw_point(65536, 65536, z)),
            Err(ProjectionError::BehindCamera)
        );
    }
    assert_eq!(
        plain_scene(0, 0).project_vertex(&canvas, raw_point(1, 1, 0)),
        Err(ProjectionError::BehindCamera)
    );
    assert_eq!(
        plain_scene(0, 0).project_vertex(&canvas, raw_point(1, 1, 1)),
        Err(ProjectionError::EmptyViewport)
    );
}

#[test]
fn cube_has_eight_vertices_and_twelve_triangles() {
    let cube = Model::cube();
    assert_eq!(
        cube.vertices,
        vec![
            halves(2, 2, 2),
            halves(-2, 2, 2),
            halves(-2, -2, 2),
            halves(2, -2, 2),
            halves(2, 2, -2),
            halves(-2, 2, -2),
            halves(-2, -2, -2),
            halves(2, -2, -2),
        ]
    );
    let triangles: Vec<((usize, usize, usize), u32)> =
        cube.triangles.iter().map(|t| (t.v, t.color)).collect();
    assert_eq!(
        triangles,
        vec![
            ((0, 1, 2), 0xFF0000),
            ((0, 2, 3), 0xFF0000),
            ((4, 0, 3), 0x00FF00),
            ((4, 3, 7), 0x00FF00),
            ((5, 4, 7), 0x0000FF),
            ((5, 7, 6), 0x0000FF),
            ((1, 5, 6), 0xFFFF00),
            ((1, 6, 2), 0xFFFF00),
            ((4, 5, 1), 0xFF00FF),
            ((4, 1, 0), 0xFF00FF),
            ((2, 6, 7), 0x00FFFF),
            ((2, 7, 3), 0x00FFFF),
        ]
    );
}

#[test]
fn instance_new_scales_then_turns_then_moves() {
    let orientation = Matrix4::from_rotation_x(Fixed { raw: 56756 }, Fixed { raw: 32768 });
    let instance = Instance::new(3, halves(1, -6, 14), orientation, Fixed { raw: 49152 });
    assert_eq!(instance.model, 3);
    assert_eq!(
        instance.transform,
        Matrix4::from_translation(halves(1, -6, 14))
            .mul_m(orientation)
            .mul_m(Matrix4::from_scale(Fixed { raw: 49152 }))
    );
    assert_eq!(
        instance.transform.transform_point(halves(2, 0, 0)),
        raw_point(32768 + 49152, -196608, 458752)
    );
}

#[test]
fn unit_cube_in_front_of_the_camera_projects_onto_the_canvas() {
    let scene = plain_scene(1, 1);
    let canvas = Canvas::new(WIDTH, HEIGHT);
    let instance = Instance::new(0, halves(-3, 0, 14), Matrix4::identity(), Fixed::one());
    let transform = scene.camera_matrix().mul_m(instance.transform);
    let expected = [
        (-37, 75),
        (-187, 75),
        (-187, -75),
        (-37, -75),
        (-49, 99),
        (-249, 99),
        (-249, -99),
        (-49, -99),
    ];
    let cube = Model::cube();
    assert_eq!(cube.vertices.len(), 8);
    for (vertex, expected) in cube.vertices.iter().zip(expected) {
        let p = scene
            .project_vertex(&canvas, transform.transform_point(*vertex))
            .unwrap();
        assert!(canvas.contains(p.x, p.y));
        assert_eq!((p.x, p.y), expected);
    }
}

#[test]
fn render_triangle_draws_its_outline() {
    let scene = plain_scene(1, 1);
    let mut canvas = Canvas::new(8, 8);
    let points = [Point2::new(9, 9), Point2::new(-2, -2), Point2::new(2, -2), Point2::new(0, 2)];
    scene
        .render_triangle(&mut canvas, &Triangle::new((1, 2, 3), 5), &points)
        .unwrap();
    assert_eq!(
        canvas.to_string(),
        "
- - - - - - - -
- - - - - - - -
- - - - X - - -
- - - - X - - -
- - - X - X - -
- - - X - X - -
- - X X X X X -
- - - - - - - -
        "
        .trim()
    );
    assert_eq!(count(&canvas, 5), 11);
}

#[test]
fn render_triangle_reports_what_it_cannot_draw() {
    let scene = plain_scene(1, 1);
    let mut canvas = Canvas::new(8, 8);
    let points = [Point2::new(9, 9), Point2::new(-2, -2), Point2::new(2, -2)];
    assert_eq!(
        scene.render_triangle(&mut canvas, &Triangle::new((1, 4, 3), 5), &points),
        Err(RenderError::MissingVertex(4))
    );
    assert_eq!(
        scene.render_triangle(&mut canvas, &Triangle::new((1, 2, 3), 5), &points),
        Err(RenderError::MissingVertex(3))
    );
    assert_eq!(
        scene.render_triangle(&mut canvas, &Triangle::new((1, 2, 0), 5), &points),
        Err(RenderError::Rasterization(RasterizationError { x: 9, y: 9 }))
    );
    assert_eq!(canvas.data(), &vec![0u32; 64]);
}

#[test]
fn render_model_projects_and_draws() {
    let scene = plain_scene(1, 1);
    let mut canvas = Canvas::new(8, 8);
    canvas.fill(3);
    scene
        .render_model(&flat_triangle(0xFF0000), Matrix4::identity(), &mut canvas)
        .unwrap();
    assert_eq!(count(&canvas, 0xFF0000), 11);
    assert_eq!(count(&canvas, 3), 64 - 11);
    let mut expected = Canvas::new(8, 8);
    expected.fill(3);
    expected
        .draw_wireframe(&Point2::new(-2, -2), &Point2::new(2, -2), &Point2::new(0, 2), 0xFF0000)
        .unwrap();
    assert_eq!(canvas.data(), expected.data());
}

#[test]
fn render_model_draws_triangles_in_order() {
    let scene = plain_scene(1, 1);
    let quad = Model::new(
        vec![
            raw_point(-16384, -16384, 65536),
            raw_point(16384, -16384, 65536),
            raw_point(16384, 16384, 65536),
            raw_point(-16384, 16384, 65536),
        ],
        vec![Triangle::new((0, 1, 2), 0x11), Triangle::new((0, 2, 3), 0x22)],
    );
    let mut canvas = Canvas::new(8, 8);
    scene.render_model(&quad, Matrix4::identity(), &mut canvas).unwrap();
    assert_eq!(
        canvas.data(),
        &vec![
            0, 0, 0, 0, 0, 0, 0, 0, //
            0, 0, 0, 0, 0, 0, 0, 0, //
            0, 0, 0x22, 0x22, 0x22, 0x22, 0x22, 0, //
            0, 0, 0x22, 0, 0, 0x22, 0x11, 0, //
            0, 0, 0x22, 0, 0x22, 0, 0x11, 0, //
            0, 0, 0x22, 0x22, 0, 0, 0x11, 0, //
            0, 0, 0x22, 0x11, 0x11, 0x11, 0x11, 0, //
            0, 0, 0, 0, 0, 0, 0, 0,
        ]
    );
}

#[test]
fn render_model_paints_nothing_unless_all_can_be_drawn() {
    let scene = plain_scene(1, 1);
    let mut canvas = Canvas::new(8, 8);
    canvas.fill(3);

    let mut behind = flat_triangle(1);
    behind.vertices.push(raw_point(0, 0, 0));
    assert_eq!(
        scene.render_model(&behind, Matrix4::identity(), &mut canvas),
        Err(RenderError::Projection(ProjectionError::BehindCamera))
    );

    let mut missing = flat_triangle(1);
    missing.triangles.push(Triangle::new((0, 1, 3), 2));
    assert_eq!(
        scene.render_model(&missing, Matrix4::identity(), &mut canvas),
        Err(RenderError::MissingVertex(3))
    );

    // Twice as large, the triangle reaches past the canvas.
    assert_eq!(
        scene.render_model(
            &flat_triangle(1),
            Matrix4::from_translation(raw_point(0, -65536, 0)),
            &mut canvas
        ),
        Err(RenderError::Rasterization(RasterizationError { x: -2, y: -10 }))
    );

    assert_eq!(
        plain_scene(0, 1).render_model(&flat_triangle(1), Matrix4::identity(), &mut canvas),
        Err(RenderError::Projection(ProjectionError::EmptyViewport))
    );
    assert_eq!(canvas.data(), &vec![3u32; 64]);
}

#[test]
fn render_clears_and_draws_every_instance() {
    let mut scene = plain_scene(1, 1);
    scene.models.push(flat_triangle(0xFF0000));
    scene
        .instances
        .push(Instance::new(0, origin(), Matrix4::identity(), Fixed::one()));
    let mut canvas = Canvas::new(8, 8);
    canvas.fill(0x777777);
    scene.render(&mut canvas).unwrap();
    assert_eq!(
        canvas.to_string(),
        "
- - - - - - - -
- - - - - - - -
- - - - X - - -
- - - - X - - -
- - - X - X - -
- - - X - X - -
- - X X X X X -
- - - - - - - -
        "
        .trim()
    );
    assert_eq!(count(&canvas, 0xFF0000), 11);
    assert_eq!(count(&canvas, 0), 64 - 11);
}

#[test]
fn render_paints_later_instances_over_earlier_ones() {
    let mut scene = plain_scene(1, 1);
    scene.models.push(flat_triangle(0xFF0000));
    scene.models.push(flat_triangle(0x0000FF));
    let large = Instance::new(0, origin(), Matrix4::identity(), Fixed::one());
    let small = Instance::new(1, raw_point(0, 0, 32768), Matrix4::identity(), Fixed { raw: 32768 });
    scene.instances.push(large);
    scene.instances.push(small);
    let mut canvas = Canvas::new(8, 8);
    scene.render(&mut canvas).unwrap();
    let (r, b) = (0xFF0000, 0x0000FF);
    assert_eq!(
        canvas.data(),
        &vec![
            0, 0, 0, 0, 0, 0, 0, 0, //
            0, 0, 0, 0, 0, 0, 0, 0, //
            0, 0, 0, 0, r, 0, 0, 0, //
            0, 0, 0, 0, b, 0, 0, 0, //
            0, 0, 0, r, b, r, 0, 0, //
            0, 0, 0, b, b, b, 0, 0, //
            0, 0, r, r, r, r, r, 0, //
            0, 0, 0, 0, 0, 0, 0, 0,
        ]
    );

    scene.instances.clear();
    scene.instances.push(small);
    scene.instances.push(large);
    scene.render(&mut canvas).unwrap();
    assert_eq!(
        canvas.data(),
        &vec![
            0, 0, 0, 0, 0, 0, 0, 0, //
            0, 0, 0, 0, 0, 0, 0, 0, //
            0, 0, 0, 0, r, 0, 0, 0, //
            0, 0, 0, 0, r, 0, 0, 0, //
            0, 0, 0, r, b, r, 0, 0, //
            0, 0, 0, r, b, r, 0, 0, //
            0, 0, r, r, r, r, r, 0, //
            0, 0, 0, 0, 0, 0, 0, 0,
        ]
    );
}

#[test]
fn render_looks_through_the_camera() {
    let mut scene = plain_scene(1, 1);
    scene.models.push(flat_triangle(1));
    scene
        .instances
        .push(Instance::new(0, origin(), Matrix4::identity(), Fixed::one()));
    // A step back and a quarter of a unit to the right.
    scene.camera.position = raw_point(16384, 0, -65536);
    let mut canvas = Canvas::new(8, 8);
    scene.render(&mut canvas).unwrap();
    assert_eq!(
        canvas.to_string(),
        "
- - - - - - - -
- - - - - - - -
- - - - - - - -
- - - X - - - -
- - - X X - - -
- - X X X - - -
- - - - - - - -
- - - - - - - -
        "
        .trim()
    );
    // Turned a quarter of a turn, the camera has the triangle beside it.
    scene.camera.position = origin();
    scene.camera.orientation = Matrix4::from_rotation_y(Fixed::zero(), Fixed::one());
    assert_eq!(
        scene.render(&mut canvas),
        Err(RenderError::Projection(ProjectionError::BehindCamera))
    );
}

#[test]
fn render_paints_nothing_unless_the_whole_frame_can_be_drawn() {
    let mut scene = plain_scene(1, 1);
    scene.models.push(flat_triangle(1));
    scene
        .instances
        .push(Instance::new(0, origin(), Matrix4::identity(), Fixed::one()));
    scene
        .instances
        .push(Instance::new(1, origin(), Matrix4::identity(), Fixed::one()));
    let mut canvas = Canvas::new(8, 8);
    canvas.fill(0x777777);
    assert_eq!(scene.render(&mut canvas), Err(RenderError::MissingModel(1)));
    assert_eq!(canvas.data(), &vec![0x777777u32; 64]);

    scene.instances[1] =
        Instance::new(0, raw_point(0, 0, -65536), Matrix4::identity(), Fixed::one());
    assert_eq!(
        scene.render(&mut canvas),
        Err(RenderError::Projection(ProjectionError::BehindCamera))
    );
    scene.instances[1] =
        Instance::new(0, raw_point(65536, 0, 0), Matrix4::identity(), Fixed::one());
    assert_eq!(
        scene.render(&mut canvas),
        Err(RenderError::Rasterization(RasterizationError { x: 6, y: -2 }))
    );
    assert_eq!(canvas.data(), &vec![0x777777u32; 64]);

    scene.instances.pop();
    assert_eq!(scene.render(&mut canvas), Ok(()));
    assert_eq!(count(&canvas, 1), 11);
}

#[test]
fn render_of_an_empty_scene_clears_the_canvas() {
    let scene = Scene::new(1, 1);
    let mut canvas = Canvas::new(4, 4);
    canvas.fill(9);
    scene.render(&mut canvas).unwrap();
    assert_eq!(canvas.data(), &vec![0u32; 16]);
}

#[test]
fn example_scene_renders_from_the_default_camera() {
    let mut scene = Scene::new(1, 1);
    init_cube_scene(&mut scene);
    assert_eq!(scene.models.len(), 1);
    assert_eq!(scene.models[0].vertices, Model::cube().vertices);
    assert_eq!(scene.models[0].triangles.len(), 12);
    assert_eq!(scene.instances.len(), 2);
    assert_eq!(scene.instances[0].model, 0);
    assert_eq!(scene.instances[1].model, 0);
    assert_eq!(
        scene.instances[0].transform,
        Instance::new(0, halves(-3, 0, 14), Matrix4::identity(), Fixed { raw: 49152 }).transform
    );
    assert_eq!(
        scene.instances[1].transform,
        Instance::new(
            0,
            raw_point(81920, 163840, 491520),
            Matrix4::from_rotation_y(Fixed { raw: 1 }, Fixed { raw: -65536 }),
            Fixed::one()
        )
        .transform
    );

    let mut canvas = Canvas::new(WIDTH, HEIGHT);
    scene.render(&mut canvas).unwrap();
    assert_eq!(count(&canvas, 0), 354689);
    assert_eq!(count(&canvas, 0xFF00FF), 1251);
    assert_eq!(count(&canvas, 0x00FFFF), 1234);
    assert_eq!(count(&canvas, 0xFFFF00), 1223);
    assert_eq!(count(&canvas, 0x0000FF), 709);
    assert_eq!(count(&canvas, 0x00FF00), 581);
    assert_eq!(count(&canvas, 0xFF0000), 313);
}

#[test]
fn example_scene_leaves_the_canvas_when_seen_from_the_origin() {
    let mut scene = plain_scene(1, 1);
    init_cube_scene(&mut scene);
    let mut canvas = Canvas::new(WIDTH, HEIGHT);
    canvas.fill(4);
    assert_eq!(
        scene.render(&mut canvas),
        Err(RenderError::Rasterization(RasterizationError { x: 23, y: 323 }))
    );
    assert_eq!(count(&canvas, 4), WIDTH * HEIGHT);
}

#[test]
fn render1_draws_the_box() {
    let scene = plain_scene(1, 1);
    let mut canvas = Canvas::new(WIDTH, HEIGHT);
    scene.render1(&mut canvas).unwrap();
    assert_eq!(count(&canvas, 0), 359016);
    assert_eq!(count(&canvas, 0x0000FF), 470);
    assert_eq!(count(&canvas, 0xFF0000), 390);
    assert_eq!(count(&canvas, 0x00FF00), 124);

    let mut small = Canvas::new(40, 40);
    small.fill(8);
    scene.render1(&mut small).unwrap();
    assert_eq!(count(&small, 8), 1560);
    assert_eq!(count(&small, 0xFF0000), 20);
    assert_eq!(count(&small, 0x00FF00), 10);
    assert_eq!(count(&small, 0x0000FF), 10);
    let mut expected = Canvas::new(40, 40);
    expected.fill(8);
    let corners = [(-15, -3), (-15, 3), (-7, 3), (-7, -3), (-13, -3), (-13, 3), (-6, 3), (-6, -3)];
    let edges = [
        (0, 1, 0x0000FF),
        (1, 2, 0x0000FF),
        (2, 3, 0x0000FF),
        (3, 0, 0x0000FF),
        (4, 5, 0xFF0000),
        (5, 6, 0xFF0000),
        (6, 7, 0xFF0000),
        (7, 4, 0xFF0000),
        (0, 4, 0x00FF00),
        (1, 5, 0x00FF00),
        (2, 6, 0x00FF00),
        (3, 7, 0x00FF00),
    ];
    for (from, to, color) in edges {
        let (a, b): ((i32, i32), (i32, i32)) = (corners[from], corners[to]);
        expected
            .draw_line(&Point2::new(a.0, a.1), &Point2::new(b.0, b.1), color)
            .unwrap();
    }
    assert_eq!(small.data(), expected.data());
}

#[test]
fn render1_reports_what_keeps_the_box_from_being_drawn() {
    // A canvas without columns has no pixel for any corner.
    let mut empty = Canvas::new(0, 5);
    assert_eq!(
        plain_scene(1, 1).render1(&mut empty),
        Err(RenderError::Rasterization(RasterizationError { x: 0, y: 0 }))
    );
    let mut canvas = Canvas::new(40, 40);
    canvas.fill(8);
    assert_eq!(
        plain_scene(1, 0).render1(&mut canvas),
        Err(RenderError::Projection(ProjectionError::EmptyViewport))
    );
    assert_eq!(count(&canvas, 8), 1600);
}

#[test]
fn point_steps_until_it_reaches_the_edge() {
    assert_eq!((WIDTH, HEIGHT), (600, 600));
    let mut p = Point2::new(297, -10);
    let mut v = Point2::new(2, -3);
    update_point_and_velocity(&mut p, &mut v);
    assert_eq!((p.x, p.y, v.x, v.y), (299, -13, 2, -3));
    // The next step would reach the right edge: the point turns round.
    update_point_and_velocity(&mut p, &mut v);
    assert_eq!((p.x, p.y, v.x, v.y), (299, -16, -2, -3));
    update_point_and_velocity(&mut p, &mut v);
    assert_eq!((p.x, p.y, v.x, v.y), (297, -19, -2, -3));

    let mut p = Point2::new(-298, -298);
    let mut v = Point2::new(-2, -1);
    update_point_and_velocity(&mut p, &mut v);
    assert_eq!((p.x, p.y, v.x, v.y), (-298, -299, 2, -1));
    update_point_and_velocity(&mut p, &mut v);
    assert_eq!((p.x, p.y, v.x, v.y), (-296, -299, 2, 1));
    update_point_and_velocity(&mut p, &mut v);
    assert_eq!((p.x, p.y, v.x, v.y), (-294, -298, 2, 1));
}

#[test]
fn every_point_inside_the_viewport_lands_on_the_canvas() {
    let scene = plain_scene(1, 1);
    for (width, height) in [(1, 1), (2, 2), (5, 4), (4, 5), (600, 600), (601, 599)] {
        let canvas = Canvas::new(width, height);
        for x in [-32767, -1, 0, 1, 32767] {
            for y in [-32767, -1, 0, 1, 32767] {
                let p = scene
                    .viewport_to_canvas(&canvas, Fixed { raw: x }, Fixed { raw: y })
                    .unwrap();
                assert!(canvas.contains(p.x, p.y));
            }
        }
    }
    // The right edge of the viewport itself is one column past an even canvas.
    let canvas = Canvas::new(600, 600);
    let p = scene
        .viewport_to_canvas(&canvas, Fixed { raw: 32768 }, Fixed::zero())
        .unwrap();
    assert_eq!((p.x, p.y), (300, 0));
    assert!(!canvas.contains(p.x, p.y));
}
