//! Spheres and the exact ray-sphere intersection test.

use vstd::prelude::*;
use crate::color::Color;
use crate::vector::{SpecVector3, Vector3};
use crate::wide::product_at_least;

verus! {

/// The discriminant `b^2 - 4ac` of the quadratic in `t` that says that the
/// point `origin + t * direction` lies on the sphere round `center`.
pub open spec fn discriminant(
    origin: SpecVector3,
    direction: SpecVector3,
    center: SpecVector3,
    radius: int,
) -> int {
    let oc = origin.minus(center);
    let a = direction.dot(direction);
    let b = 2 * oc.dot(direction);
    let c = oc.dot(oc) - radius * radius;
    b * b - 4 * a * c
}

/// Whether the line through `origin` along `direction` meets the sphere:
/// the quadratic has a real root, tangency included. The root may be
/// negative, so a sphere behind the origin counts as well.
pub open spec fn intersects(
    origin: SpecVector3,
    direction: SpecVector3,
    center: SpecVector3,
    radius: int,
) -> bool {
    discriminant(origin, direction, center, radius) >= 0
}

/// A sphere of one flat colour. A radius of zero makes it a single point,
/// for which the test stays exact.
#[derive(Clone, Copy, Debug, PartialEq, Eq, Structural)]
pub struct Sphere {
    pub center: Vector3,
    pub radius: u32,
    pub color: Color,
}

proof fn lemma_product_bounded(x: int, y: int, bound_x: int, bound_y: int)
    by (nonlinear_arith)
    requires
        -bound_x <= x <= bound_x,
        -bound_y <= y <= bound_y,
    ensures
        -(bound_x * bound_y) <= x * y <= bound_x * bound_y,
{
}

proof fn lemma_discriminant_sign(half_b: int, a: int, c: int)
    by (nonlinear_arith)
    ensures
        (2 * half_b) * (2 * half_b) - 4 * a * c == 4 * (half_b * half_b - a * c),
        (-half_b) * (-half_b) == half_b * half_b,
        a >= 0 && c <= 0 ==> half_b * half_b - a * c >= 0,
{
}

proof fn lemma_squares_are_nonnegative(x: int, y: int, z: int)
    by (nonlinear_arith)
    ensures
        x * x + y * y + z * z >= 0,
{
}

impl Sphere {
    /// Whether a ray from `origin` along `direction` is reported to hit this
    /// sphere.
    pub open spec fn hit(&self, origin: SpecVector3, direction: SpecVector3) -> bool {
        intersects(origin, direction, self.center@, self.radius as int)
    }

    /// Tests the ray against the sphere by the sign of the discriminant.
    /// The direction need not have unit length.
    pub fn ray_intersect(&self, ray_origin: &Vector3, ray_direction: &Vector3) -> (hit: bool)
        ensures
            hit == self.hit(ray_origin@, ray_direction@),
    {
        let ocx: i128 = ray_origin.x as i128 - self.center.x as i128;
        let ocy: i128 = ray_origin.y as i128 - self.center.y as i128;
        let ocz: i128 = ray_origin.z as i128 - self.center.z as i128;
        let dx: i128 = ray_direction.x as i128;
        let dy: i128 = ray_direction.y as i128;
        let dz: i128 = ray_direction.z as i128;
        let r: i128 = self.radius as i128;
        proof {
            let p: int = 0x1_0000_0000;
            let q: int = 0x8000_0000;
            lemma_product_bounded(ocx as int, dx as int, p, q);
            lemma_product_bounded(ocy as int, dy as int, p, q);
            lemma_product_bounded(ocz as int, dz as int, p, q);
            lemma_product_bounded(dx as int, dx as int, q, q);
            lemma_product_bounded(dy as int, dy as int, q, q);
            lemma_product_bounded(dz as int, dz as int, q, q);
            lemma_product_bounded(ocx as int, ocx as int, p, p);
            lemma_product_bounded(ocy as int, ocy as int, p, p);
            lemma_product_bounded(ocz as int, ocz as int, p, p);
            lemma_product_bounded(r as int, r as int, p, p);
            lemma_squares_are_nonnegative(dx as int, dy as int, dz as int);
            lemma_squares_are_nonnegative(ocx as int, ocy as int, ocz as int);
        }
        let half_b: i128 = ocx * dx + ocy * dy + ocz * dz;
        let a: i128 = dx * dx + dy * dy + dz * dz;
        let c: i128 = ocx * ocx + ocy * ocy + ocz * ocz - r * r;
        proof {
            lemma_discriminant_sign(half_b as int, a as int, c as int);
            assert(discriminant(ray_origin@, ray_direction@, self.center@, self.radius as int)
                == (2 * half_b) * (2 * half_b) - 4 * a * c);
        }
        if c <= 0 {
            return true;
        }
        let reach: u128 = if half_b < 0 { (-half_b) as u128 } else { half_b as u128 };
        product_at_least(reach, reach, a as u128, c as u128)
    }
}

} // verus!
