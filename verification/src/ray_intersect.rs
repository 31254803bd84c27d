//! What a scene can hold: anything that a ray can be tested against.

use vstd::prelude::*;
use crate::sphere::{intersects, Sphere};
use crate::vector::{SpecVector3, Vector3};

verus! {

/// A shape that can say whether a ray hits it.
pub trait RayIntersect {
    /// Whether a ray from `origin` along `direction` hits the shape.
    spec fn hit(&self, origin: SpecVector3, direction: SpecVector3) -> bool;

    /// Tests the ray against the shape.
    fn ray_intersect(&self, ray_origin: &Vector3, ray_direction: &Vector3) -> (hit: bool)
        ensures
            hit == self.hit(ray_origin@, ray_direction@),
    ;
}

impl RayIntersect for Sphere {
    open spec fn hit(&self, origin: SpecVector3, direction: SpecVector3) -> bool {
        intersects(origin, direction, self.center@, self.radius as int)
    }

    fn ray_intersect(&self, ray_origin: &Vector3, ray_direction: &Vector3) -> (hit: bool) {
        Sphere::ray_intersect(self, ray_origin, ray_direction)
    }
}

} // verus!
