//! What holds of the transforms.

use vstd::prelude::*;
use crate::fixed::{Fixed, ONE_RAW};
use crate::matrix::{Matrix4, Vector4, vec4_raw};
use crate::point::Point3;

verus! {

/// The identity matrix leaves every vector as it is.
pub proof fn lemma_identity_mul_v(v: Vector4)
    requires
        v.wf(),
    ensures
        Matrix4::identity_spec().mul_v_spec(v) == v,
{
}

/// Multiplying by the identity matrix, from either side, leaves a matrix as
/// it is.
pub proof fn lemma_identity_mul_m(m: Matrix4)
    requires
        m.wf(),
    ensures
        Matrix4::identity_spec().mul_m_spec(m) == m,
        m.mul_m_spec(Matrix4::identity_spec()) == m,
{
}

/// Transposing a matrix twice gives it back.
pub proof fn lemma_transpose_twice(m: Matrix4)
    ensures
        m.transpose_spec().transpose_spec() == m,
{
}

/// A translation moves the origin to the point it translates by.
pub proof fn lemma_translation_of_origin(t: Point3)
    requires
        t.wf(),
    ensures
        Matrix4::translation_spec(t).mul_v_spec(vec4_raw(0, 0, 0, ONE_RAW as int)) == (Vector4 {
            x: t.x,
            y: t.y,
            z: t.z,
            w: Fixed { raw: ONE_RAW },
        }),
        Matrix4::translation_spec(t).transform_point_spec(
            Point3 { x: Fixed { raw: 0 }, y: Fixed { raw: 0 }, z: Fixed { raw: 0 } },
        ) == t,
{
}

/// A translation followed by the opposite translation is the identity.
pub proof fn lemma_translation_inverse(t: Point3)
    requires
        t.wf(),
    ensures
        Matrix4::translation_spec(t).mul_m_spec(Matrix4::translation_spec(t.neg_spec()))
            == Matrix4::identity_spec(),
{
}

/// Whether `cos` and `sin` are the cosine and sine of an angle as far as the
/// precision of the numbers can tell: the sum of their squares is one, up to
/// what rounding a product towards zero drops.
pub open spec fn is_rotation(cos: Fixed, sin: Fixed) -> bool {
    ONE_RAW * ONE_RAW <= cos.raw * cos.raw + sin.raw * sin.raw < ONE_RAW * ONE_RAW + ONE_RAW
}

/// The products that meet in the entries of a rotation multiplied by its opposite.
proof fn lemma_rotation_products(c: int, s: int)
    by (nonlinear_arith)
    ensures
        (-s) * (-s) == s * s,
        s * c + c * (-s) == 0,
        c * s + (-s) * c == 0,
        c * (-s) + s * c == 0,
        (-s) * c + c * s == 0,
{
}

proof fn lemma_rotation_bound(c: int, s: int)
    by (nonlinear_arith)
    requires
        c * c + s * s < 0x1_0001_0000,
    ensures
        -0x1_0001 < s < 0x1_0001,
        -0x1_0001 < c < 0x1_0001,
        c * c >= 0,
        s * s >= 0,
{
}

/// A rotation about the `z` axis followed by the rotation by the opposite
/// angle is the identity.
pub proof fn lemma_rotation_z_inverse(cos: Fixed, sin: Fixed)
    requires
        is_rotation(cos, sin),
    ensures
        Matrix4::rotation_z_spec(cos, sin).mul_m_spec(
            Matrix4::rotation_z_spec(cos, sin.neg_spec()),
        ) == Matrix4::identity_spec(),
{
    lemma_rotation_products(cos.raw as int, sin.raw as int);
    lemma_rotation_bound(cos.raw as int, sin.raw as int);
}

/// A rotation about the `x` axis followed by the rotation by the opposite
/// angle is the identity.
pub proof fn lemma_rotation_x_inverse(cos: Fixed, sin: Fixed)
    requires
        is_rotation(cos, sin),
    ensures
        Matrix4::rotation_x_spec(cos, sin).mul_m_spec(
            Matrix4::rotation_x_spec(cos, sin.neg_spec()),
        ) == Matrix4::identity_spec(),
{
    lemma_rotation_products(cos.raw as int, sin.raw as int);
    lemma_rotation_bound(cos.raw as int, sin.raw as int);
}

/// A rotation about the `y` axis followed by the rotation by the opposite
/// angle is the identity.
pub proof fn lemma_rotation_y_inverse(cos: Fixed, sin: Fixed)
    requires
        is_rotation(cos, sin),
    ensures
        Matrix4::rotation_y_spec(cos, sin).mul_m_spec(
            Matrix4::rotation_y_spec(cos, sin.neg_spec()),
        ) == Matrix4::identity_spec(),
{
    lemma_rotation_products(cos.raw as int, sin.raw as int);
    lemma_rotation_bound(cos.raw as int, sin.raw as int);
}

} // verus!
