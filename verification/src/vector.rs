//! Three-dimensional integer vectors and their mathematical model.

use vstd::prelude::*;

verus! {

/// A vector or point of three-dimensional space over the integers.
pub struct SpecVector3 {
    pub x: int,
    pub y: int,
    pub z: int,
}

impl SpecVector3 {
    /// Component-wise difference `self - other`.
    pub open spec fn minus(self, other: SpecVector3) -> SpecVector3 {
        SpecVector3 { x: self.x - other.x, y: self.y - other.y, z: self.z - other.z }
    }

    /// Component-wise sum `self + other`.
    pub open spec fn plus(self, other: SpecVector3) -> SpecVector3 {
        SpecVector3 { x: self.x + other.x, y: self.y + other.y, z: self.z + other.z }
    }

    /// The vector stretched by the factor `k`.
    pub open spec fn scaled(self, k: int) -> SpecVector3 {
        SpecVector3 { x: k * self.x, y: k * self.y, z: k * self.z }
    }

    /// Scalar product.
    pub open spec fn dot(self, other: SpecVector3) -> int {
        self.x * other.x + self.y * other.y + self.z * other.z
    }

    /// Vector product.
    pub open spec fn cross(self, other: SpecVector3) -> SpecVector3 {
        SpecVector3 {
            x: self.y * other.z - self.z * other.y,
            y: self.z * other.x - self.x * other.z,
            z: self.x * other.y - self.y * other.x,
        }
    }

    /// Squared Euclidean length.
    pub open spec fn norm_sq(self) -> int {
        self.dot(self)
    }

    pub open spec fn is_zero(self) -> bool {
        self.x == 0 && self.y == 0 && self.z == 0
    }
}

/// A vector or point with 32-bit integer coordinates.
#[derive(Clone, Copy, Debug, PartialEq, Eq, Structural)]
pub struct Vector3 {
    pub x: i32,
    pub y: i32,
    pub z: i32,
}

impl View for Vector3 {
    type V = SpecVector3;

    open spec fn view(&self) -> SpecVector3 {
        SpecVector3 { x: self.x as int, y: self.y as int, z: self.z as int }
    }
}

impl Vector3 {
    pub fn new(x: i32, y: i32, z: i32) -> (v: Vector3)
        ensures
            v == (Vector3 { x, y, z }),
    {
        Vector3 { x, y, z }
    }
}

} // verus!
