//! Points: on the canvas and in space.

use vstd::prelude::*;
use crate::fixed::{Fixed, ONE_RAW};

verus! {

/// A point in 2D canvas space: integer pixel coordinates, `x` growing to the
/// right and `y` growing upwards, with the origin at the canvas centre; and
/// the intensity `h` of the light that falls on it, which only shaded
/// rendering reads.
#[derive(Debug, Clone, Copy, PartialEq, Eq, Structural)]
pub struct Point2 {
    pub x: i32,
    pub y: i32,
    pub h: Fixed,
}

impl Point2 {
    /// The point `(x, y)`, fully lit.
    pub fn new(x: i32, y: i32) -> (p: Point2)
        ensures
            p == (Point2 { x, y, h: Fixed { raw: ONE_RAW } }),
    {
        Point2 { x, y, h: Fixed::one() }
    }

    /// The point `(x, y)`, lit with intensity `h`.
    pub fn with_intensity(x: i32, y: i32, h: Fixed) -> (p: Point2)
        ensures
            p == (Point2 { x, y, h }),
    {
        Point2 { x, y, h }
    }
}

/// A point in 3D space.
#[derive(Debug, Clone, Copy, PartialEq, Eq, Structural)]
pub struct Point3 {
    pub x: Fixed,
    pub y: Fixed,
    pub z: Fixed,
}

impl Point3 {
    /// Every coordinate is well formed.
    pub open spec fn wf(self) -> bool {
        self.x.wf() && self.y.wf() && self.z.wf()
    }

    /// The point scaled by `rhs`, coordinate by coordinate.
    pub open spec fn scale_spec(self, rhs: Fixed) -> Point3 {
        Point3 { x: self.x.times_spec(rhs), y: self.y.times_spec(rhs), z: self.z.times_spec(rhs) }
    }

    /// The point mirrored through the origin.
    pub open spec fn neg_spec(self) -> Point3 {
        Point3 { x: self.x.neg_spec(), y: self.y.neg_spec(), z: self.z.neg_spec() }
    }

    pub fn new(x: Fixed, y: Fixed, z: Fixed) -> (p: Point3)
        ensures
            p == (Point3 { x, y, z }),
    {
        Point3 { x, y, z }
    }

    /// The point scaled by `rhs`, coordinate by coordinate.
    pub fn scale(self, rhs: Fixed) -> (p: Point3)
        ensures
            p == self.scale_spec(rhs),
            p.wf(),
    {
        Point3 { x: self.x.times(rhs), y: self.y.times(rhs), z: self.z.times(rhs) }
    }

    /// The point mirrored through the origin.
    pub fn neg(self) -> (p: Point3)
        ensures
            p == self.neg_spec(),
            p.wf(),
    {
        Point3 { x: self.x.neg(), y: self.y.neg(), z: self.z.neg() }
    }
}

impl Default for Point3 {
    /// The origin.
    fn default() -> (p: Point3)
        ensures
            p == (Point3 { x: Fixed { raw: 0 }, y: Fixed { raw: 0 }, z: Fixed { raw: 0 } }),
    {
        Point3 { x: Fixed::zero(), y: Fixed::zero(), z: Fixed::zero() }
    }
}

} // verus!
