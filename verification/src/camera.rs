//! The fixed pinhole camera: at the origin, looking down the negative z
//! axis, with a field of view of sixty degrees. Its rays have unit length.

use vstd::prelude::*;
use vstd::arithmetic::div_mod::{lemma_div_is_ordered, lemma_div_multiples_vanish};
use crate::sqrt::{floor_sqrt, floor_sqrt_is_floor};
use crate::unit::{
    has_unit_length,
    unit_direction,
    unit_direction_along_axis,
    unit_direction_has_unit_length,
    DIRECTION_UNIT,
};
use crate::vector::{SpecVector3, Vector3};

verus! {

/// Numerator of the perspective scale, the tangent of half the field of
/// view. For sixty degrees that tangent is the reciprocal of the square root
/// of three; `10864 / 18817` is a convergent of its continued fraction.
pub const PERSPECTIVE_NUM: i32 = 10864;

/// Denominator of the perspective scale.
pub const PERSPECTIVE_DEN: i32 = 18817;

/// The point from which every camera ray starts.
pub open spec fn camera_position() -> SpecVector3 {
    SpecVector3 { x: 0, y: 0, z: 0 }
}

/// Where the camera looks to see the centre of pixel `(x, y)` of an image
/// of `width` by `height` pixels, as a vector of any length.
///
/// With `screen_x = 2 (x + 1/2) / width - 1` and
/// `screen_y = 1 - 2 (y + 1/2) / height`, so that row 0 is the top row, the
/// camera looks along `(screen_x * aspect * scale, screen_y * scale, -1)`,
/// where `aspect = width / height` and `scale` is the perspective scale.
/// This is that vector multiplied by `height * PERSPECTIVE_DEN`, which
/// clears every denominator.
pub open spec fn camera_direction(x: int, y: int, width: int, height: int) -> SpecVector3 {
    SpecVector3 {
        x: (2 * x + 1 - width) * PERSPECTIVE_NUM,
        y: (height - (2 * y + 1)) * PERSPECTIVE_NUM,
        z: -(height * PERSPECTIVE_DEN),
    }
}

/// Direction of the ray through the centre of pixel `(x, y)`: the vector
/// `camera_direction` brought to unit length.
pub open spec fn camera_ray_direction(x: int, y: int, width: int, height: int) -> SpecVector3 {
    unit_direction(camera_direction(x, y, width, height))
}

/// The camera's position as a value.
pub fn camera_origin() -> (origin: Vector3)
    ensures
        origin@ == camera_position(),
{
    Vector3 { x: 0, y: 0, z: 0 }
}

proof fn lemma_component_square(c: int)
    by (nonlinear_arith)
    requires
        -0x8000_0000 <= c <= 0x8000_0000,
    ensures
        0 <= c * c <= 0x4000_0000_0000_0000,
        c <= -4 ==> c * c >= 16,
{
}

/// For no pixel is `camera_direction` the zero vector.
pub proof fn camera_direction_is_not_zero(x: int, y: int, width: int, height: int)
    requires
        0 <= y,
        0 <= height,
    ensures
        !camera_direction(x, y, width, height).is_zero(),
{
}

/// Every ray of an image of at most 65535 by 65535 pixels has unit length
/// and points away from the camera, towards negative z.
pub proof fn camera_ray_is_unit_and_forward(x: int, y: int, width: int, height: int)
    requires
        0 <= x <= 0xffff,
        0 <= y <= 0xffff,
        0 <= width <= 0xffff,
        0 < height <= 0xffff,
    ensures
        has_unit_length(camera_ray_direction(x, y, width, height)),
        camera_ray_direction(x, y, width, height).z < 0,
{
    let v = camera_direction(x, y, width, height);
    let n = v.norm_sq();
    let scale = DIRECTION_UNIT * DIRECTION_UNIT;
    unit_direction_has_unit_length(v);
    lemma_component_square(v.x);
    lemma_component_square(v.y);
    lemma_component_square(v.z);
    let numerator = (v.z * v.z) * scale;
    let q = numerator / n;
    assert(1 <= q) by {
        assert(scale == 0x1000_0000_0000_0000);
        assert(n <= 3 * 0x4000_0000_0000_0000);
        assert(v.z * v.z >= 16);
        assert(numerator >= 16 * 0x1000_0000_0000_0000);
        lemma_div_is_ordered(n, numerator, n);
        lemma_div_multiples_vanish(1, n);
    }
    floor_sqrt_is_floor(q);
    let root = floor_sqrt(q);
    if root == 0 {
        assert((root + 1) * (root + 1) == 1) by (nonlinear_arith)
            requires
                root == 0,
        ;
    }
    assert(camera_ray_direction(x, y, width, height).z == -root);
}

/// Computes the direction of the ray through pixel `(x, y)`.
pub fn camera_ray(x: u16, y: u16, width: u16, height: u16) -> (direction: Vector3)
    ensures
        direction@ == camera_ray_direction(x as int, y as int, width as int, height as int),
        has_unit_length(direction@),
        height > 0 ==> direction@.z < 0,
{
    let across: i32 = 2 * (x as i32) + 1 - (width as i32);
    let up: i32 = (height as i32) - (2 * (y as i32) + 1);
    let aim = Vector3 {
        x: across * PERSPECTIVE_NUM,
        y: up * PERSPECTIVE_NUM,
        z: -((height as i32) * PERSPECTIVE_DEN),
    };
    proof {
        camera_direction_is_not_zero(x as int, y as int, width as int, height as int);
        if height > 0 {
            camera_ray_is_unit_and_forward(x as int, y as int, width as int, height as int);
        }
    }
    aim.normalized()
}

/// The perspective scale `s` satisfies `3 s^2 = 1` up to one part in the
/// square of its denominator, as the tangent of thirty degrees does exactly.
pub proof fn perspective_scale_is_tangent_of_half_fov()
    ensures
        3 * (PERSPECTIVE_NUM * PERSPECTIVE_NUM) + 1 == PERSPECTIVE_DEN * PERSPECTIVE_DEN,
{
}

/// The ray through a pixel whose centre is the centre of the image is the
/// unit vector down the negative z axis, whatever the aspect ratio.
pub proof fn center_pixel_looks_down_the_axis(x: int, y: int, width: int, height: int)
    requires
        2 * x + 1 == width,
        2 * y + 1 == height,
        0 < height,
    ensures
        camera_ray_direction(x, y, width, height) == (SpecVector3 {
            x: 0,
            y: 0,
            z: -DIRECTION_UNIT,
        }),
{
    unit_direction_along_axis(-(height * PERSPECTIVE_DEN));
}

/// The camera looks towards positive x for pixels to the right of the
/// image's centre, and towards positive y for pixels above it.
pub proof fn pixel_side_gives_direction_sign(x: int, y: int, width: int, height: int)
    ensures
        (camera_direction(x, y, width, height).x > 0) == (2 * x + 1 > width),
        (camera_direction(x, y, width, height).y > 0) == (2 * y + 1 < height),
{
}

} // verus!
