//! An exact ray caster for scenes of coloured spheres.
//!
//! One ray is cast per pixel from a pinhole camera at the origin; the pixel
//! takes the colour of the first sphere of the scene, in scene order, that
//! the ray hits, or the background colour.
//!
//! Coordinates are integers in a unit that the caller chooses, so the
//! ray-sphere test is decided without rounding, and every contract is stated
//! over the mathematical integers. A camera ray's direction has unit length
//! in fixed point, `DIRECTION_UNIT` standing for 1.

pub mod camera;
pub mod caster;
pub mod color;
pub mod framebuffer;
pub mod geometry;
pub mod ray_intersect;
pub mod sphere;
pub mod sqrt;
pub mod unit;
pub mod vector;
mod wide;

pub use caster::{cast_ray, render};
pub use color::Color;
pub use framebuffer::Framebuffer;
pub use ray_intersect::RayIntersect;
pub use sphere::Sphere;
pub use vector::{SpecVector3, Vector3};
