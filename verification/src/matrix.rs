//! Homogeneous vectors and 4x4 transforms.

use vstd::prelude::*;
use crate::fixed::{Fixed, ONE_RAW, lemma_raw_product_fits, saturate};
use crate::point::Point3;
use crate::ratio::trunc_div;

verus! {

/// A vector in 3D space with homogeneous coordinates.
#[derive(Debug, Clone, Copy, PartialEq, Eq, Structural)]
pub struct Vector4 {
    pub x: Fixed,
    pub y: Fixed,
    pub z: Fixed,
    pub w: Fixed,
}

/// A 4x4 transform, stored as its four columns.
#[derive(Debug, Clone, Copy, PartialEq, Eq, Structural)]
pub struct Matrix4 {
    pub x: Vector4,
    pub y: Vector4,
    pub z: Vector4,
    pub w: Vector4,
}

/// The raw sum of four products of raw values: the products are added
/// exactly, and only their sum is scaled back, rounded towards zero and
/// saturated.
pub open spec fn dot_raw(a0: int, b0: int, a1: int, b1: int, a2: int, b2: int, a3: int, b3: int) -> int {
    saturate(trunc_div(a0 * b0 + a1 * b1 + a2 * b2 + a3 * b3, ONE_RAW as int))
}

/// The sum of four products.
pub open spec fn dot(
    a0: Fixed,
    b0: Fixed,
    a1: Fixed,
    b1: Fixed,
    a2: Fixed,
    b2: Fixed,
    a3: Fixed,
    b3: Fixed,
) -> Fixed {
    Fixed {
        raw: dot_raw(
            a0.raw as int,
            b0.raw as int,
            a1.raw as int,
            b1.raw as int,
            a2.raw as int,
            b2.raw as int,
            a3.raw as int,
            b3.raw as int,
        ) as i32,
    }
}

/// The sum of four products.
fn dot_product(
    a0: Fixed,
    b0: Fixed,
    a1: Fixed,
    b1: Fixed,
    a2: Fixed,
    b2: Fixed,
    a3: Fixed,
    b3: Fixed,
) -> (r: Fixed)
    ensures
        r == dot(a0, b0, a1, b1, a2, b2, a3, b3),
        r.wf(),
{
    proof {
        lemma_raw_product_fits(a0.raw as int, b0.raw as int);
        lemma_raw_product_fits(a1.raw as int, b1.raw as int);
        lemma_raw_product_fits(a2.raw as int, b2.raw as int);
        lemma_raw_product_fits(a3.raw as int, b3.raw as int);
    }
    let p0: i128 = (a0.raw as i64 * b0.raw as i64) as i128;
    let p1: i128 = (a1.raw as i64 * b1.raw as i64) as i128;
    let p2: i128 = (a2.raw as i64 * b2.raw as i64) as i128;
    let p3: i128 = (a3.raw as i64 * b3.raw as i64) as i128;
    Fixed::saturating((p0 + p1 + p2 + p3) / (ONE_RAW as i128))
}

impl Vector4 {
    /// Every coordinate is well formed.
    pub open spec fn wf(self) -> bool {
        self.x.wf() && self.y.wf() && self.z.wf() && self.w.wf()
    }

    pub fn new(x: Fixed, y: Fixed, z: Fixed, w: Fixed) -> (v: Vector4)
        ensures
            v == (Vector4 { x, y, z, w }),
    {
        Vector4 { x, y, z, w }
    }
}

impl Default for Vector4 {
    /// The zero vector.
    fn default() -> (v: Vector4)
        ensures
            v == (Vector4 {
                x: Fixed { raw: 0 },
                y: Fixed { raw: 0 },
                z: Fixed { raw: 0 },
                w: Fixed { raw: 0 },
            }),
    {
        Vector4 { x: Fixed::zero(), y: Fixed::zero(), z: Fixed::zero(), w: Fixed::zero() }
    }
}

/// The vector `(x, y, z, w)` given by its raw coordinates.
pub open spec fn vec4_raw(x: int, y: int, z: int, w: int) -> Vector4 {
    Vector4 {
        x: Fixed { raw: x as i32 },
        y: Fixed { raw: y as i32 },
        z: Fixed { raw: z as i32 },
        w: Fixed { raw: w as i32 },
    }
}

impl Matrix4 {
    /// The matrix that scales the three axes by `scale`.
    pub open spec fn scale_spec(scale: Fixed) -> Matrix4 {
        Matrix4 {
            x: Vector4 { x: scale, ..vec4_raw(0, 0, 0, 0) },
            y: Vector4 { y: scale, ..vec4_raw(0, 0, 0, 0) },
            z: Vector4 { z: scale, ..vec4_raw(0, 0, 0, 0) },
            w: vec4_raw(0, 0, 0, ONE_RAW as int),
        }
    }

    /// The matrix that moves every point by `t`.
    pub open spec fn translation_spec(t: Point3) -> Matrix4 {
        Matrix4 {
            x: vec4_raw(ONE_RAW as int, 0, 0, 0),
            y: vec4_raw(0, ONE_RAW as int, 0, 0),
            z: vec4_raw(0, 0, ONE_RAW as int, 0),
            w: Vector4 { x: t.x, y: t.y, z: t.z, w: Fixed { raw: ONE_RAW } },
        }
    }

    /// The rotation about the `x` axis by the angle of the given cosine and sine.
    pub open spec fn rotation_x_spec(cos: Fixed, sin: Fixed) -> Matrix4 {
        Matrix4 {
            x: vec4_raw(ONE_RAW as int, 0, 0, 0),
            y: Vector4 { y: cos, z: sin, ..vec4_raw(0, 0, 0, 0) },
            z: Vector4 { y: sin.neg_spec(), z: cos, ..vec4_raw(0, 0, 0, 0) },
            w: vec4_raw(0, 0, 0, ONE_RAW as int),
        }
    }

    /// The rotation about the `y` axis by the angle of the given cosine and sine.
    pub open spec fn rotation_y_spec(cos: Fixed, sin: Fixed) -> Matrix4 {
        Matrix4 {
            x: Vector4 { x: cos, z: sin.neg_spec(), ..vec4_raw(0, 0, 0, 0) },
            y: vec4_raw(0, ONE_RAW as int, 0, 0),
            z: Vector4 { x: sin, z: cos, ..vec4_raw(0, 0, 0, 0) },
            w: vec4_raw(0, 0, 0, ONE_RAW as int),
        }
    }

    /// The rotation about the `z` axis by the angle of the given cosine and sine.
    pub open spec fn rotation_z_spec(cos: Fixed, sin: Fixed) -> Matrix4 {
        Matrix4 {
            x: Vector4 { x: cos, y: sin, ..vec4_raw(0, 0, 0, 0) },
            y: Vector4 { x: sin.neg_spec(), y: cos, ..vec4_raw(0, 0, 0, 0) },
            z: vec4_raw(0, 0, ONE_RAW as int, 0),
            w: vec4_raw(0, 0, 0, ONE_RAW as int),
        }
    }

    /// The matrix of zeros.
    pub open spec fn zero_spec() -> Matrix4 {
        Matrix4 {
            x: vec4_raw(0, 0, 0, 0),
            y: vec4_raw(0, 0, 0, 0),
            z: vec4_raw(0, 0, 0, 0),
            w: vec4_raw(0, 0, 0, 0),
        }
    }

    /// The matrix that leaves every vector as it is.
    pub open spec fn identity_spec() -> Matrix4 {
        Matrix4 {
            x: vec4_raw(ONE_RAW as int, 0, 0, 0),
            y: vec4_raw(0, ONE_RAW as int, 0, 0),
            z: vec4_raw(0, 0, ONE_RAW as int, 0),
            w: vec4_raw(0, 0, 0, ONE_RAW as int),
        }
    }

    /// The matrix applied to the vector `v`: each coordinate of the result is
    /// the sum of the products of one row of the matrix with `v`.
    pub open spec fn mul_v_spec(self, v: Vector4) -> Vector4 {
        Vector4 {
            x: dot(self.x.x, v.x, self.y.x, v.y, self.z.x, v.z, self.w.x, v.w),
            y: dot(self.x.y, v.x, self.y.y, v.y, self.z.y, v.z, self.w.y, v.w),
            z: dot(self.x.z, v.x, self.y.z, v.y, self.z.z, v.z, self.w.z, v.w),
            w: dot(self.x.w, v.x, self.y.w, v.y, self.z.w, v.z, self.w.w, v.w),
        }
    }

    /// The product of two matrices: the matrix applied to each column of `other`.
    pub open spec fn mul_m_spec(self, other: Matrix4) -> Matrix4 {
        Matrix4 {
            x: self.mul_v_spec(other.x),
            y: self.mul_v_spec(other.y),
            z: self.mul_v_spec(other.z),
            w: self.mul_v_spec(other.w),
        }
    }

    /// The matrix mirrored about its diagonal.
    pub open spec fn transpose_spec(self) -> Matrix4 {
        Matrix4 {
            x: Vector4 { x: self.x.x, y: self.y.x, z: self.z.x, w: self.w.x },
            y: Vector4 { x: self.x.y, y: self.y.y, z: self.z.y, w: self.w.y },
            z: Vector4 { x: self.x.z, y: self.y.z, z: self.z.z, w: self.w.z },
            w: Vector4 { x: self.x.w, y: self.y.w, z: self.z.w, w: self.w.w },
        }
    }

    /// The matrix applied to the point `p`: the point is given the fourth
    /// coordinate one, transformed, and the fourth coordinate of the result
    /// is dropped.
    pub open spec fn transform_point_spec(self, p: Point3) -> Point3 {
        let v = self.mul_v_spec(Vector4 { x: p.x, y: p.y, z: p.z, w: Fixed { raw: ONE_RAW } });
        Point3 { x: v.x, y: v.y, z: v.z }
    }

    /// Every entry is well formed.
    pub open spec fn wf(self) -> bool {
        self.x.wf() && self.y.wf() && self.z.wf() && self.w.wf()
    }

    pub fn from_cols(x: Vector4, y: Vector4, z: Vector4, w: Vector4) -> (m: Matrix4)
        ensures
            m == (Matrix4 { x, y, z, w }),
    {
        Matrix4 { x, y, z, w }
    }

    pub fn from_scale(scale: Fixed) -> (m: Matrix4)
        ensures
            m == Matrix4::scale_spec(scale),
    {
        let o = Fixed::zero();
        Matrix4 {
            x: Vector4 { x: scale, y: o, z: o, w: o },
            y: Vector4 { x: o, y: scale, z: o, w: o },
            z: Vector4 { x: o, y: o, z: scale, w: o },
            w: Vector4 { x: o, y: o, z: o, w: Fixed::one() },
        }
    }

    pub fn from_translation(translation: Point3) -> (m: Matrix4)
        ensures
            m == Matrix4::translation_spec(translation),
    {
        let o = Fixed::zero();
        let i = Fixed::one();
        Matrix4 {
            x: Vector4 { x: i, y: o, z: o, w: o },
            y: Vector4 { x: o, y: i, z: o, w: o },
            z: Vector4 { x: o, y: o, z: i, w: o },
            w: Vector4 { x: translation.x, y: translation.y, z: translation.z, w: i },
        }
    }

    /// The rotation about the `x` axis by the angle whose cosine and sine are given.
    pub fn from_rotation_x(cos: Fixed, sin: Fixed) -> (m: Matrix4)
        ensures
            m == Matrix4::rotation_x_spec(cos, sin),
    {
        let o = Fixed::zero();
        let i = Fixed::one();
        Matrix4 {
            x: Vector4 { x: i, y: o, z: o, w: o },
            y: Vector4 { x: o, y: cos, z: sin, w: o },
            z: Vector4 { x: o, y: sin.neg(), z: cos, w: o },
            w: Vector4 { x: o, y: o, z: o, w: i },
        }
    }

    /// The rotation about the `y` axis by the angle whose cosine and sine are given.
    pub fn from_rotation_y(cos: Fixed, sin: Fixed) -> (m: Matrix4)
        ensures
            m == Matrix4::rotation_y_spec(cos, sin),
    {
        let o = Fixed::zero();
        let i = Fixed::one();
        Matrix4 {
            x: Vector4 { x: cos, y: o, z: sin.neg(), w: o },
            y: Vector4 { x: o, y: i, z: o, w: o },
            z: Vector4 { x: sin, y: o, z: cos, w: o },
            w: Vector4 { x: o, y: o, z: o, w: i },
        }
    }

    /// The rotation about the `z` axis by the angle whose cosine and sine are given.
    pub fn from_rotation_z(cos: Fixed, sin: Fixed) -> (m: Matrix4)
        ensures
            m == Matrix4::rotation_z_spec(cos, sin),
    {
        let o = Fixed::zero();
        let i = Fixed::one();
        Matrix4 {
            x: Vector4 { x: cos, y: sin, z: o, w: o },
            y: Vector4 { x: sin.neg(), y: cos, z: o, w: o },
            z: Vector4 { x: o, y: o, z: i, w: o },
            w: Vector4 { x: o, y: o, z: o, w: i },
        }
    }

    pub fn zero() -> (m: Matrix4)
        ensures
            m == Matrix4::zero_spec(),
    {
        let o = Fixed::zero();
        let v = Vector4 { x: o, y: o, z: o, w: o };
        Matrix4 { x: v, y: v, z: v, w: v }
    }

    pub fn identity() -> (m: Matrix4)
        ensures
            m == Matrix4::identity_spec(),
    {
        let o = Fixed::zero();
        let i = Fixed::one();
        Matrix4 {
            x: Vector4 { x: i, y: o, z: o, w: o },
            y: Vector4 { x: o, y: i, z: o, w: o },
            z: Vector4 { x: o, y: o, z: i, w: o },
            w: Vector4 { x: o, y: o, z: o, w: i },
        }
    }

    /// The product of this matrix and `other`: the transform that applies
    /// `other` first and this matrix second.
    pub fn mul_m(&self, other: Matrix4) -> (m: Matrix4)
        ensures
            m == self.mul_m_spec(other),
            m.wf(),
    {
        Matrix4::from_cols(
            self.mul_v(other.x),
            self.mul_v(other.y),
            self.mul_v(other.z),
            self.mul_v(other.w),
        )
    }

    /// This matrix applied to the vector `v`.
    pub fn mul_v(&self, v: Vector4) -> (r: Vector4)
        ensures
            r == self.mul_v_spec(v),
            r.wf(),
    {
        Vector4::new(
            dot_product(self.x.x, v.x, self.y.x, v.y, self.z.x, v.z, self.w.x, v.w),
            dot_product(self.x.y, v.x, self.y.y, v.y, self.z.y, v.z, self.w.y, v.w),
            dot_product(self.x.z, v.x, self.y.z, v.y, self.z.z, v.z, self.w.z, v.w),
            dot_product(self.x.w, v.x, self.y.w, v.y, self.z.w, v.z, self.w.w, v.w),
        )
    }

    /// This matrix mirrored about its diagonal.
    pub fn transpose(&self) -> (m: Matrix4)
        ensures
            m == self.transpose_spec(),
    {
        Matrix4::from_cols(
            Vector4::new(self.x.x, self.y.x, self.z.x, self.w.x),
            Vector4::new(self.x.y, self.y.y, self.z.y, self.w.y),
            Vector4::new(self.x.z, self.y.z, self.z.z, self.w.z),
            Vector4::new(self.x.w, self.y.w, self.z.w, self.w.w),
        )
    }

    /// This matrix applied to the point `p`.
    pub fn transform_point(&self, p: Point3) -> (r: Point3)
        ensures
            r == self.transform_point_spec(p),
            r.wf(),
    {
        let v = self.mul_v(Vector4::new(p.x, p.y, p.z, Fixed::one()));
        Point3 { x: v.x, y: v.y, z: v.z }
    }
}

} // verus!
