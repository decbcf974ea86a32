use rasterizer::fixed::Fixed;
use rasterizer::matrix::{Matrix4, Vector4};
use rasterizer::point::Point3;
use std::f32::consts::PI;

fn fixed(v: f32) -> Fixed {
    Fixed { raw: (v * 65536.0).round() as i32 }
}

fn point(x: f32, y: f32, z: f32) -> Point3 {
    Point3::new(fixed(x), fixed(y), fixed(z))
}

fn vector(x: f32, y: f32, z: f32, w: f32) -> Vector4 {
    Vector4::new(fixed(x), fixed(y), fixed(z), fixed(w))
}

fn raw_vector(x: i32, y: i32, z: i32, w: i32) -> Vector4 {
    Vector4::new(Fixed { raw: x }, Fixed { raw: y }, Fixed { raw: z }, Fixed { raw: w })
}

fn rotation_x(angle: f32) -> Matrix4 {
    Matrix4::from_rotation_x(fixed(angle.cos()), fixed(angle.sin()))
}

fn rotation_y(angle: f32) -> Matrix4 {
    Matrix4::from_rotation_y(fixed(angle.cos()), fixed(angle.sin()))
}

fn rotation_z(angle: f32) -> Matrix4 {
    Matrix4::from_rotation_z(fixed(angle.cos()), fixed(angle.sin()))
}

#[test]
fn test_matrix_mul_m() {
    assert_eq!(
        rotation_z(PI / 2.).mul_m(rotation_z(-PI / 2.)),
        Matrix4::identity()
    );
    assert_eq!(
        Matrix4::from_translation(point(1., 2., 3.))
            .mul_m(Matrix4::from_translation(point(-1., -2., -3.))),
        Matrix4::identity()
    );
    // Rotation after translation shouldn't touch the translation part
    let m = Matrix4::from_translation(point(-3., 1., 2.)).mul_m(rotation_y(PI / 6.));
    assert_eq!(m.w, Matrix4::from_translation(point(-3., 1., 2.)).w)
}

#[test]
fn test_matrix_mul_v() {
    assert_eq!(
        Matrix4::identity().mul_v(vector(1., 2., 3., 4.)),
        vector(1., 2., 3., 4.)
    );
    assert_eq!(
        Matrix4::from_translation(point(1., 2., 3.)).mul_v(vector(0., 0., 0., 1.)),
        vector(1., 2., 3., 1.)
    );
}

#[test]
fn matrix_constructors() {
    assert_eq!(
        Matrix4::identity(),
        Matrix4::from_cols(
            raw_vector(65536, 0, 0, 0),
            raw_vector(0, 65536, 0, 0),
            raw_vector(0, 0, 65536, 0),
            raw_vector(0, 0, 0, 65536),
        )
    );
    assert_eq!(
        Matrix4::zero(),
        Matrix4::from_cols(
            Vector4::default(),
            Vector4::default(),
            Vector4::default(),
            Vector4::default(),
        )
    );
    assert_eq!(Matrix4::from_scale(Fixed::one()), Matrix4::identity());
    assert_eq!(
        Matrix4::from_scale(Fixed { raw: 49152 }),
        Matrix4::from_cols(
            raw_vector(49152, 0, 0, 0),
            raw_vector(0, 49152, 0, 0),
            raw_vector(0, 0, 49152, 0),
            raw_vector(0, 0, 0, 65536),
        )
    );
    assert_eq!(
        Matrix4::from_translation(point(0.5, -3., 7.)),
        Matrix4::from_cols(
            raw_vector(65536, 0, 0, 0),
            raw_vector(0, 65536, 0, 0),
            raw_vector(0, 0, 65536, 0),
            raw_vector(32768, -196608, 458752, 65536),
        )
    );
    assert_eq!(Point3::default(), point(0., 0., 0.));
}

#[test]
fn rotation_constructors_place_cosine_and_sine() {
    let (c, s) = (Fixed { raw: 56756 }, Fixed { raw: 32768 });
    assert_eq!(
        Matrix4::from_rotation_x(c, s),
        Matrix4::from_cols(
            raw_vector(65536, 0, 0, 0),
            raw_vector(0, 56756, 32768, 0),
            raw_vector(0, -32768, 56756, 0),
            raw_vector(0, 0, 0, 65536),
        )
    );
    assert_eq!(
        Matrix4::from_rotation_y(c, s),
        Matrix4::from_cols(
            raw_vector(56756, 0, -32768, 0),
            raw_vector(0, 65536, 0, 0),
            raw_vector(32768, 0, 56756, 0),
            raw_vector(0, 0, 0, 65536),
        )
    );
    assert_eq!(
        Matrix4::from_rotation_z(c, s),
        Matrix4::from_cols(
            raw_vector(56756, 32768, 0, 0),
            raw_vector(-32768, 56756, 0, 0),
            raw_vector(0, 0, 65536, 0),
            raw_vector(0, 0, 0, 65536),
        )
    );
    assert_eq!(rotation_y(PI / 6.), Matrix4::from_rotation_y(c, s));
}

#[test]
fn rotation_by_the_opposite_angle_undoes_a_rotation() {
    // The cosine and sine of a twelfth of a turn, rounded so that the sum
    // of their squares is not below one.
    let (c, s) = (Fixed { raw: 56756 }, Fixed { raw: 32768 });
    assert_eq!(
        Matrix4::from_rotation_x(c, s).mul_m(Matrix4::from_rotation_x(c, s.neg())),
        Matrix4::identity()
    );
    assert_eq!(
        Matrix4::from_rotation_y(c, s).mul_m(Matrix4::from_rotation_y(c, s.neg())),
        Matrix4::identity()
    );
    assert_eq!(
        Matrix4::from_rotation_z(c, s).mul_m(Matrix4::from_rotation_z(c, s.neg())),
        Matrix4::identity()
    );
    for quarter in 0..4 {
        let angle = quarter as f32 * PI / 2.;
        assert_eq!(rotation_x(angle).mul_m(rotation_x(-angle)), Matrix4::identity());
        assert_eq!(rotation_y(angle).mul_m(rotation_y(-angle)), Matrix4::identity());
        assert_eq!(rotation_z(angle).mul_m(rotation_z(-angle)), Matrix4::identity());
    }
}

#[test]
fn rotation_from_a_short_cosine_is_not_undone() {
    // Rounded down, the cosine leaves the sum of the squares below one.
    let (c, s) = (Fixed { raw: 56755 }, Fixed { raw: 32768 });
    assert_eq!(
        Matrix4::from_rotation_y(c, s).mul_m(Matrix4::from_rotation_y(c, s.neg())),
        Matrix4::from_cols(
            raw_vector(65534, 0, 0, 0),
            raw_vector(0, 65536, 0, 0),
            raw_vector(0, 0, 65534, 0),
            raw_vector(0, 0, 0, 65536),
        )
    );
}

#[test]
fn translation_moves_the_origin() {
    let t = point(-1.5, 0., 7.);
    assert_eq!(
        Matrix4::from_translation(t).transform_point(Point3::default()),
        t
    );
    assert_eq!(
        Matrix4::from_translation(t).mul_m(Matrix4::from_translation(t.neg())),
        Matrix4::identity()
    );
    assert_eq!(Matrix4::identity().transform_point(t), t);
}

#[test]
fn matrix_products_exact_values() {
    let a = Matrix4::from_rotation_x(Fixed { raw: 56756 }, Fixed { raw: 32768 })
        .mul_m(Matrix4::from_translation(point(0.5, -3., 7.)));
    assert_eq!(
        a,
        Matrix4::from_cols(
            raw_vector(65536, 0, 0, 0),
            raw_vector(0, 56756, 32768, 0),
            raw_vector(0, -32768, 56756, 0),
            raw_vector(32768, -399644, 298988, 65536),
        )
    );
    let b = a.mul_m(Matrix4::from_scale(Fixed { raw: 49152 }));
    assert_eq!(
        b,
        Matrix4::from_cols(
            raw_vector(49152, 0, 0, 0),
            raw_vector(0, 42567, 24576, 0),
            raw_vector(0, -24576, 42567, 0),
            raw_vector(32768, -399644, 298988, 65536),
        )
    );
    assert_eq!(
        b.transpose(),
        Matrix4::from_cols(
            raw_vector(49152, 0, 0, 32768),
            raw_vector(0, 42567, -24576, -399644),
            raw_vector(0, 24576, 42567, 298988),
            raw_vector(0, 0, 0, 65536),
        )
    );
    assert_eq!(b.transpose().transpose(), b);
    assert_eq!(
        b.transform_point(point(1., -2., 3.)),
        Point3::new(Fixed { raw: 81920 }, Fixed { raw: -558506 }, Fixed { raw: 377537 })
    );
    assert_eq!(
        b.mul_v(vector(1., -2., 3., 0.5)),
        raw_vector(65536, -358684, 228043, 32768)
    );
}

#[test]
fn matrix_products_saturate() {
    let max = raw_vector(i32::MAX, i32::MAX, i32::MAX, i32::MAX);
    let m = Matrix4::from_cols(max, max, max, max);
    assert_eq!(m.mul_v(max), max);
    assert_eq!(
        m.mul_v(raw_vector(-i32::MAX, -i32::MAX, -i32::MAX, -i32::MAX)),
        raw_vector(-i32::MAX, -i32::MAX, -i32::MAX, -i32::MAX)
    );
}

#[test]
fn point_scale_and_neg() {
    let p = point(1., -2., 0.5);
    assert_eq!(p.scale(fixed(0.5)), point(0.5, -1., 0.25));
    assert_eq!(p.neg(), point(-1., 2., -0.5));
    assert_eq!(p.scale(fixed(-1.)), p.neg());
}
