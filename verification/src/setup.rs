//! The example scene and the size of the window that shows it.

use vstd::prelude::*;
use crate::fixed::{Fixed, ONE_RAW};
use crate::matrix::Matrix4;
use crate::point::{Point2, Point3};
use crate::model::{Instance, Model, cube_triangles, cube_vertices, halves};
use crate::scene::Scene;

verus! {

/// The width of the window, in pixels.
pub const WIDTH: usize = 600;

/// The height of the window, in pixels.
pub const HEIGHT: usize = 600;

/// Where the first cube of the example scene stands.
pub open spec fn first_cube() -> Matrix4 {
    Instance::placement(halves(-3, 0, 14), Matrix4::identity_spec(), Fixed { raw: 49152 })
}

/// Where the second cube of the example scene stands: turned about the `y`
/// axis by three quarters of a turn and a hair more, so that the cosine of
/// the angle is the smallest number above zero.
pub open spec fn second_cube() -> Matrix4 {
    Instance::placement(
        Point3 { x: Fixed { raw: 81920 }, y: Fixed { raw: 163840 }, z: Fixed { raw: 491520 } },
        Matrix4::rotation_y_spec(Fixed { raw: 1 }, Fixed { raw: (-65536i32) }),
        Fixed { raw: ONE_RAW },
    )
}

/// Adds the example to the scene: one cube, and two instances of it, the
/// first scaled to three quarters and set to the left, the second turned
/// and set up and to the right.
pub fn init_cube_scene(scene: &mut Scene)
    ensures
        final(scene).width == old(scene).width,
        final(scene).height == old(scene).height,
        final(scene).camera == old(scene).camera,
        final(scene).models@.len() == old(scene).models@.len() + 1,
        forall|i: int|
            0 <= i < old(scene).models@.len() ==> final(scene).models@[i] == old(scene).models@[i],
        final(scene).models@.last().vertices@ == cube_vertices(),
        final(scene).models@.last().triangles@ == cube_triangles(),
        final(scene).instances@ == old(scene).instances@.push(
            Instance { model: old(scene).models@.len() as usize, transform: first_cube() },
        ).push(Instance { model: old(scene).models@.len() as usize, transform: second_cube() }),
{
    let cube = scene.models.len();
    scene.models.push(Model::cube());
    let obj1 = Instance::new(
        cube,
        Point3::new(Fixed { raw: -98304 }, Fixed { raw: 0 }, Fixed { raw: 458752 }),
        Matrix4::identity(),
        Fixed { raw: 49152 },
    );
    let obj2 = Instance::new(
        cube,
        Point3::new(Fixed { raw: 81920 }, Fixed { raw: 163840 }, Fixed { raw: 491520 }),
        Matrix4::from_rotation_y(Fixed { raw: 1 }, Fixed { raw: -65536 }),
        Fixed::one(),
    );
    scene.instances.push(obj1);
    scene.instances.push(obj2);
}

/// Whether the coordinate `c` has reached the edge of a window whose half
/// size is `half`.
pub open spec fn at_edge(c: int, half: int) -> bool {
    c >= half || -c >= half
}

/// Moves the point `p` by one step of the velocity `v`, within the window.
///
/// On each axis the point takes the step; if that brings it to the edge of
/// the window, the velocity on that axis is reversed and the point steps
/// back to where it was.
pub fn update_point_and_velocity(p: &mut Point2, v: &mut Point2)
    requires
        i32::MIN <= old(p).x + old(v).x <= i32::MAX,
        i32::MIN <= old(p).y + old(v).y <= i32::MAX,
        old(v).x > i32::MIN,
        old(v).y > i32::MIN,
    ensures
        final(p).h == old(p).h,
        final(v).h == old(v).h,
        at_edge(old(p).x + old(v).x, WIDTH as int / 2) ==> final(p).x == old(p).x && final(v).x
            == -old(v).x,
        !at_edge(old(p).x + old(v).x, WIDTH as int / 2) ==> final(p).x == old(p).x + old(v).x
            && final(v).x == old(v).x,
        at_edge(old(p).y + old(v).y, HEIGHT as int / 2) ==> final(p).y == old(p).y && final(v).y
            == -old(v).y,
        !at_edge(old(p).y + old(v).y, HEIGHT as int / 2) ==> final(p).y == old(p).y + old(v).y
            && final(v).y == old(v).y,
{
    let hw = WIDTH / 2;
    let hh = HEIGHT / 2;

    p.x += v.x;
    if magnitude(p.x) as usize >= hw {
        v.x = -v.x;
        p.x += v.x;
    }
    p.y += v.y;
    if magnitude(p.y) as usize >= hh {
        v.y = -v.y;
        p.y += v.y;
    }
}

/// The absolute value of `c`.
fn magnitude(c: i32) -> (m: u32)
    ensures
        m == (if c < 0 {
            -c
        } else {
            c as int
        }),
{
    if c < 0 {
        (-(c as i64)) as u32
    } else {
        c as u32
    }
}

} // verus!
