use rasterizer::canvas::{Canvas, RasterizationError};
use rasterizer::point::Point2;

fn canvas_with_filled_triangle(p1: &Point2, p2: &Point2, p3: &Point2) -> Canvas {
    let mut canvas = Canvas::new(3, 3);
    canvas.draw_filled_triangle(p1, p2, p3, 0xFFFFFF).unwrap();
    canvas
}

#[test]
fn test_draw_line() {
    let mut canvas = Canvas::new(5, 5);
    canvas
        .draw_line(&Point2::new(-2, 2), &Point2::new(0, -2), 0xFFFFFF)
        .unwrap();
    assert_eq!(
        canvas.to_string(),
        "
X - - - -
- X - - -
- X - - -
- - X - -
- - X - -
        "
        .trim()
    );
}

#[test]
fn test_draw_filled_triangle() {
    let canvas = canvas_with_filled_triangle(
        &Point2::new(-1, 1),
        &Point2::new(0, 0),
        &Point2::new(-1, -1),
    );
    assert_eq!(
        canvas.to_string(),
        "
X - -
X X -
X - -
        "
        .trim()
    );

    let p1 = Point2::new(-1, 1);
    let p2 = Point2::new(1, 1);
    let p3 = Point2::new(-1, -1);
    let canvas = canvas_with_filled_triangle(&p1, &p2, &p3);
    assert_eq!(
        canvas.to_string(),
        "
X X X
X X -
X - -
        "
        .trim()
    );

    assert_eq!(
        canvas_with_filled_triangle(&p1, &p2, &p3).to_string(),
        canvas_with_filled_triangle(&p1, &p3, &p2).to_string()
    );
    assert_eq!(
        canvas_with_filled_triangle(&p1, &p2, &p3).to_string(),
        canvas_with_filled_triangle(&p3, &p1, &p2).to_string()
    );
    assert_eq!(
        canvas_with_filled_triangle(&p1, &p2, &p3).to_string(),
        canvas_with_filled_triangle(&p3, &p2, &p1).to_string()
    );

    let canvas = canvas_with_filled_triangle(&p1, &p1, &p1);
    assert_eq!(
        canvas.to_string(),
        "
X - -
- - -
- - -
        "
        .trim()
    );
}

#[test]
#[should_panic]
fn test_filled_triangle_corner_cases() {
    let canvas = canvas_with_filled_triangle(
        &Point2::new(-1, 1),
        &Point2::new(0, 1),
        &Point2::new(1, 1),
    );
    // A triangle squeezed into a single row is spanned by its first two
    // vertices only, so the third column stays empty.
    assert_eq!(
        canvas.to_string(),
        "
X X X
- - -
- - -
        "
        .trim()
    );
}

fn filled(width: usize, height: usize, p0: (i32, i32), p1: (i32, i32), p2: (i32, i32)) -> String {
    let mut canvas = Canvas::new(width, height);
    canvas
        .draw_filled_triangle(
            &Point2::new(p0.0, p0.1),
            &Point2::new(p1.0, p1.1),
            &Point2::new(p2.0, p2.1),
            0xFFFFFF,
        )
        .unwrap();
    canvas.to_string()
}

fn all_orders(p0: (i32, i32), p1: (i32, i32), p2: (i32, i32)) -> [[(i32, i32); 3]; 6] {
    [
        [p0, p1, p2],
        [p0, p2, p1],
        [p1, p0, p2],
        [p1, p2, p0],
        [p2, p0, p1],
        [p2, p1, p0],
    ]
}

#[test]
fn new_canvas_is_blank() {
    let canvas = Canvas::new(3, 2);
    assert_eq!(canvas.width(), 3);
    assert_eq!(canvas.height(), 2);
    assert_eq!(canvas.data(), &vec![0u32; 6]);
    assert_eq!(canvas.to_string(), "- - -\n- - -");
    assert_eq!(Canvas::new(0, 0).to_string(), "");
    assert_eq!(Canvas::new(1, 1).to_string(), "-");
}

#[test]
fn fill_sets_every_pixel() {
    let mut canvas = Canvas::new(4, 3);
    canvas.fill(0x123456);
    assert_eq!(canvas.data(), &vec![0x123456u32; 12]);
    canvas.fill(0);
    assert_eq!(canvas.data(), &vec![0u32; 12]);
}

#[test]
fn set_pixel_maps_centred_coordinates_to_rows_and_columns() {
    let mut canvas = Canvas::new(4, 3);
    // The origin lands in row height / 2 = 1 and column width / 2 = 2.
    canvas.set_pixel(0, 0, 7).unwrap();
    assert_eq!(canvas.data()[1 * 4 + 2], 7);
    // The top left corner is (-2, 1), the bottom right one is (1, -1).
    canvas.set_pixel(-2, 1, 8).unwrap();
    assert_eq!(canvas.data()[0], 8);
    canvas.set_pixel(1, -1, 9).unwrap();
    assert_eq!(canvas.data()[11], 9);
    assert_eq!(canvas.to_string(), "X - - -\n- - X -\n- - - X");
}

#[test]
fn set_pixel_reports_coordinates_outside_the_canvas() {
    let mut canvas = Canvas::new(4, 3);
    for (x, y) in [(2, 0), (-3, 0), (0, 2), (0, -2), (i32::MAX, 0), (0, i32::MIN)] {
        assert_eq!(
            canvas.set_pixel(x, y, 1),
            Err(RasterizationError { x, y })
        );
        assert!(!canvas.contains(x, y));
    }
    assert_eq!(canvas.data(), &vec![0u32; 12]);
    assert!(canvas.contains(-2, 1));
    assert!(canvas.contains(1, -1));
}

#[test]
fn draw_line_walks_the_wider_axis() {
    let mut canvas = Canvas::new(9, 9);
    canvas
        .draw_line(&Point2::new(-4, -1), &Point2::new(4, 2), 1)
        .unwrap();
    assert_eq!(
        canvas.to_string(),
        "
- - - - - - - - -
- - - - - - - - -
- - - - - - - - X
- - - - - - X X -
- X X X X X - - -
X - - - - - - - -
- - - - - - - - -
- - - - - - - - -
- - - - - - - - -
        "
        .trim()
    );
}

#[test]
fn draw_line_walks_the_taller_axis() {
    let mut canvas = Canvas::new(9, 9);
    canvas
        .draw_line(&Point2::new(3, -4), &Point2::new(-2, 4), 1)
        .unwrap();
    assert_eq!(
        canvas.to_string(),
        "
- - X - - - - - -
- - - X - - - - -
- - - - X - - - -
- - - - X - - - -
- - - - X - - - -
- - - - - X - - -
- - - - - X - - -
- - - - - - X - -
- - - - - - - X -
        "
        .trim()
    );
}

#[test]
fn draw_line_is_the_same_from_either_end() {
    let mut forward = Canvas::new(9, 9);
    let mut backward = Canvas::new(9, 9);
    forward
        .draw_line(&Point2::new(-4, 3), &Point2::new(2, -4), 5)
        .unwrap();
    backward
        .draw_line(&Point2::new(2, -4), &Point2::new(-4, 3), 5)
        .unwrap();
    assert_eq!(forward.data(), backward.data());
}

#[test]
fn draw_line_of_one_point_paints_one_pixel() {
    let mut canvas = Canvas::new(3, 3);
    canvas
        .draw_line(&Point2::new(1, -1), &Point2::new(1, -1), 1)
        .unwrap();
    assert_eq!(canvas.to_string(), "- - -\n- - -\n- - X");
}

#[test]
fn draw_line_outside_the_canvas_paints_nothing() {
    let mut canvas = Canvas::new(5, 5);
    assert_eq!(
        canvas.draw_line(&Point2::new(0, 0), &Point2::new(3, 0), 1),
        Err(RasterizationError { x: 3, y: 0 })
    );
    assert_eq!(
        canvas.draw_line(&Point2::new(0, -3), &Point2::new(9, 9), 1),
        Err(RasterizationError { x: 0, y: -3 })
    );
    assert_eq!(canvas.data(), &vec![0u32; 25]);
}

#[test]
fn draw_wireframe_outlines_the_triangle() {
    let mut canvas = Canvas::new(9, 9);
    canvas
        .draw_wireframe(
            &Point2::new(-3, -3),
            &Point2::new(3, -2),
            &Point2::new(0, 4),
            1,
        )
        .unwrap();
    assert_eq!(
        canvas.to_string(),
        "
- - - - X - - - -
- - - - X - - - -
- - - - X X - - -
- - - X - X - - -
- - - X - - X - -
- - X - - - X - -
- - X X X X X X -
- X - - - - - - -
- - - - - - - - -
        "
        .trim()
    );
}

#[test]
fn draw_wireframe_outside_the_canvas_paints_nothing() {
    let mut canvas = Canvas::new(5, 5);
    assert_eq!(
        canvas.draw_wireframe(
            &Point2::new(0, 0),
            &Point2::new(1, 1),
            &Point2::new(-3, 1),
            1
        ),
        Err(RasterizationError { x: -3, y: 1 })
    );
    assert_eq!(canvas.data(), &vec![0u32; 25]);
}

#[test]
fn filled_triangle_spans_every_row() {
    assert_eq!(
        filled(9, 9, (-3, -3), (3, -2), (0, 4)),
        "
- - - - X - - - -
- - - - X - - - -
- - - - X X - - -
- - - X X X - - -
- - - X X X X - -
- - X X X X X - -
- - X X X X X X -
- X - - - - - - -
- - - - - - - - -
        "
        .trim()
    );
    assert_eq!(
        filled(9, 9, (-4, 4), (4, 0), (-1, -4)),
        "
X - - - - - - - -
- X X - - - - - -
- X X X X - - - -
- - X X X X X - -
- - X X X X X X X
- - X X X X X - -
- - - X X X - - -
- - - X X - - - -
- - - X - - - - -
        "
        .trim()
    );
}

#[test]
fn filled_triangle_is_the_same_in_every_order() {
    for (p0, p1, p2) in [
        ((-1, 1), (1, 1), (-1, -1)),
        ((-1, 1), (0, 0), (-1, -1)),
    ] {
        let expected = filled(3, 3, p0, p1, p2);
        for order in all_orders(p0, p1, p2) {
            assert_eq!(filled(3, 3, order[0], order[1], order[2]), expected);
        }
    }
    for (p0, p1, p2) in [
        ((-3, -3), (3, -2), (0, 4)),
        ((-4, 4), (4, 0), (-1, -4)),
        ((-4, -4), (4, -4), (0, 4)),
        ((-4, 4), (4, 4), (0, -4)),
        ((-4, -2), (3, 2), (3, 2)),
        ((0, 0), (3, 3), (-3, -3)),
        ((2, 0), (0, 1), (1, 1)),
    ] {
        let expected = filled(9, 9, p0, p1, p2);
        for order in all_orders(p0, p1, p2) {
            assert_eq!(filled(9, 9, order[0], order[1], order[2]), expected);
        }
    }
}

#[test]
fn filled_triangle_of_two_rows_depends_on_the_order_of_its_base() {
    // Both sides meet in the upper row, so neither is taken for the left
    // side, and the lower row runs from the first base vertex to the second.
    assert_eq!(filled(3, 3, (-1, 0), (1, 0), (0, 1)), "- X -\nX X X\n- - -");
    assert_eq!(filled(3, 3, (1, 0), (-1, 0), (0, 1)), "- X -\n- - -\n- - -");
}

#[test]
fn filled_triangle_of_one_row_is_spanned_by_its_first_two_vertices() {
    assert_eq!(filled(3, 3, (-1, 1), (0, 1), (1, 1)), "X X -\n- - -\n- - -");
    assert_eq!(filled(3, 3, (-1, 1), (1, 1), (0, 1)), "X X X\n- - -\n- - -");
    assert_eq!(filled(3, 3, (1, 1), (0, 1), (-1, 1)), "- X X\n- - -\n- - -");
}

#[test]
fn filled_triangle_of_one_point_paints_that_pixel() {
    for (x, y) in [(-1, 1), (0, 0), (1, -1), (-1, -1)] {
        let mut canvas = Canvas::new(3, 3);
        let p = Point2::new(x, y);
        canvas.draw_filled_triangle(&p, &p, &p, 9).unwrap();
        let mut expected = Canvas::new(3, 3);
        expected.set_pixel(x, y, 9).unwrap();
        assert_eq!(canvas.data(), expected.data());
        assert_eq!(canvas.data().iter().filter(|&&px| px != 0).count(), 1);
    }
}

#[test]
fn filled_triangle_outside_the_canvas_paints_nothing() {
    let mut canvas = Canvas::new(3, 3);
    assert_eq!(
        canvas.draw_filled_triangle(
            &Point2::new(0, 0),
            &Point2::new(0, 2),
            &Point2::new(5, 0),
            1
        ),
        Err(RasterizationError { x: 0, y: 2 })
    );
    assert_eq!(canvas.data(), &vec![0u32; 9]);
}

#[test]
fn drawing_keeps_what_it_does_not_cover() {
    let mut canvas = Canvas::new(3, 3);
    canvas.fill(5);
    canvas
        .draw_filled_triangle(
            &Point2::new(-1, 1),
            &Point2::new(1, 1),
            &Point2::new(-1, -1),
            6,
        )
        .unwrap();
    assert_eq!(canvas.data(), &vec![6, 6, 6, 6, 6, 5, 6, 5, 5]);
}
