//! What the intersection test means geometrically: the discriminant compares
//! the distance between the sphere's centre and the ray's line with the
//! radius.

use vstd::prelude::*;
use crate::sphere::{discriminant, intersects};
use crate::vector::SpecVector3;

verus! {

/// Whether the line through `origin` along `direction` passes through
/// `point`: the vector between the two points is parallel to `direction`.
pub open spec fn passes_through(
    origin: SpecVector3,
    direction: SpecVector3,
    point: SpecVector3,
) -> bool {
    origin.minus(point).cross(direction).is_zero()
}

/// The squared distance between `point` and the line through `origin` along
/// `direction`, multiplied by the squared length of `direction`, which keeps
/// it an integer.
pub open spec fn closest_approach_sq(
    origin: SpecVector3,
    direction: SpecVector3,
    point: SpecVector3,
) -> int {
    origin.minus(point).cross(direction).norm_sq()
}

proof fn lemma_square_of_difference(m: int, n: int)
    by (nonlinear_arith)
    ensures
        (m - n) * (m - n) == m * m - 2 * (m * n) + n * n,
{
}

proof fn lemma_square_of_sum(p: int, q: int, r: int)
    by (nonlinear_arith)
    ensures
        (p + q + r) * (p + q + r)
            == p * p + q * q + r * r + 2 * (p * q) + 2 * (p * r) + 2 * (q * r),
{
}

proof fn lemma_exchange(a: int, x: int, b: int, y: int)
    by (nonlinear_arith)
    ensures
        (a * y) * (b * x) == (a * x) * (b * y),
        (a * x) * (a * x) == (a * a) * (x * x),
{
}

proof fn lemma_expand_three_by_three(a: int, b: int, c: int, x: int, y: int, z: int)
    by (nonlinear_arith)
    ensures
        (a + b + c) * (x + y + z)
            == a * x + a * y + a * z + b * x + b * y + b * z + c * x + c * y + c * z,
{
}

proof fn lemma_lagrange(a: int, b: int, c: int, x: int, y: int, z: int)
    ensures
        (b * z - c * y) * (b * z - c * y)
            + (c * x - a * z) * (c * x - a * z)
            + (a * y - b * x) * (a * y - b * x)
            == (a * a + b * b + c * c) * (x * x + y * y + z * z)
            - (a * x + b * y + c * z) * (a * x + b * y + c * z),
{
    lemma_square_of_difference(b * z, c * y);
    lemma_square_of_difference(c * x, a * z);
    lemma_square_of_difference(a * y, b * x);
    lemma_square_of_sum(a * x, b * y, c * z);
    lemma_expand_three_by_three(a * a, b * b, c * c, x * x, y * y, z * z);
    lemma_exchange(a, x, a, x);
    lemma_exchange(a, y, a, y);
    lemma_exchange(a, z, a, z);
    lemma_exchange(b, x, b, x);
    lemma_exchange(b, y, b, y);
    lemma_exchange(b, z, b, z);
    lemma_exchange(c, x, c, x);
    lemma_exchange(c, y, c, y);
    lemma_exchange(c, z, c, z);
    lemma_exchange(b, y, c, z);
    lemma_exchange(c, z, a, x);
    lemma_exchange(a, x, b, y);
}

proof fn lemma_closed_form(h: int, a: int, s: int, rr: int)
    by (nonlinear_arith)
    ensures
        (2 * h) * (2 * h) - 4 * a * (s - rr) == 4 * (rr * a - (s * a - h * h)),
{
}

proof fn lemma_nonnegative_product(r: int, x: int, y: int, z: int)
    by (nonlinear_arith)
    ensures
        r * r * (x * x + y * y + z * z) >= 0,
{
}

proof fn lemma_square_is_nonnegative(r: int)
    by (nonlinear_arith)
    ensures
        r * r >= 0,
{
}

proof fn lemma_shifted_cross(wy: int, wz: int, dy: int, dz: int, t: int)
    by (nonlinear_arith)
    ensures
        (wy + t * dy) * dz - (wz + t * dz) * dy == wy * dz - wz * dy,
{
}

proof fn lemma_parallel(oy: int, oz: int, dy: int, dz: int, t: int)
    by (nonlinear_arith)
    ensures
        (oy - (oy + t * dy)) * dz - (oz - (oz + t * dz)) * dy == 0,
{
}

proof fn lemma_scaled_products(w: int, d: int, k: int)
    by (nonlinear_arith)
    ensures
        w * (k * d) == k * (w * d),
        (k * d) * (k * d) == (k * k) * (d * d),
{
}

proof fn lemma_scaled_sums(k: int, x: int, y: int, z: int)
    by (nonlinear_arith)
    ensures
        k * x + k * y + k * z == k * (x + y + z),
{
}

proof fn lemma_scaled_discriminant(h: int, a: int, c: int, k: int)
    by (nonlinear_arith)
    requires
        k != 0,
    ensures
        (2 * (k * h)) * (2 * (k * h)) - 4 * ((k * k) * a) * c
            == (k * k) * ((2 * h) * (2 * h) - 4 * a * c),
        k * k > 0,
{
}

proof fn lemma_same_sign(p: int, x: int)
    by (nonlinear_arith)
    requires
        p > 0,
    ensures
        (p * x >= 0) == (x >= 0),
{
}

/// Lagrange's identity: `|u x v|^2 = |u|^2 |v|^2 - (u . v)^2`.
pub proof fn lagrange_identity(u: SpecVector3, v: SpecVector3)
    ensures
        u.cross(v).norm_sq() == u.norm_sq() * v.norm_sq() - u.dot(v) * u.dot(v),
{
    lemma_lagrange(u.x, u.y, u.z, v.x, v.y, v.z);
}

/// The discriminant is four times the amount by which the squared radius
/// exceeds the squared distance between the centre and the line, both scaled
/// by the squared length of the direction.
pub proof fn discriminant_closed_form(
    origin: SpecVector3,
    direction: SpecVector3,
    center: SpecVector3,
    radius: int,
)
    ensures
        discriminant(origin, direction, center, radius)
            == 4 * (radius * radius * direction.norm_sq()
                - closest_approach_sq(origin, direction, center)),
{
    let oc = origin.minus(center);
    lagrange_identity(oc, direction);
    lemma_closed_form(oc.dot(direction), direction.norm_sq(), oc.norm_sq(), radius * radius);
}

/// A line passes through each of its points `origin + t * direction`.
pub proof fn line_passes_through_its_points(origin: SpecVector3, direction: SpecVector3, t: int)
    ensures
        passes_through(origin, direction, origin.plus(direction.scaled(t))),
{
    lemma_parallel(origin.y, origin.z, direction.y, direction.z, t);
    lemma_parallel(origin.z, origin.x, direction.z, direction.x, t);
    lemma_parallel(origin.x, origin.y, direction.x, direction.y, t);
}

/// Every point `origin + t * direction` of the line lies at least as far
/// from `point` as `closest_approach_sq` says, and exactly that far where the
/// vector from `point` to it is perpendicular to `direction`.
pub proof fn closest_approach_is_least(
    origin: SpecVector3,
    direction: SpecVector3,
    point: SpecVector3,
    t: int,
)
    ensures
        ({
            let offset = origin.plus(direction.scaled(t)).minus(point);
            let closest = closest_approach_sq(origin, direction, point);
            &&& offset.norm_sq() * direction.norm_sq()
                == closest + offset.dot(direction) * offset.dot(direction)
            &&& offset.norm_sq() * direction.norm_sq() >= closest
        }),
{
    let w = origin.minus(point);
    let offset = origin.plus(direction.scaled(t)).minus(point);
    lemma_shifted_cross(w.y, w.z, direction.y, direction.z, t);
    lemma_shifted_cross(w.z, w.x, direction.z, direction.x, t);
    lemma_shifted_cross(w.x, w.y, direction.x, direction.y, t);
    assert(offset.cross(direction) == w.cross(direction));
    lagrange_identity(offset, direction);
    lemma_square_is_nonnegative(offset.dot(direction));
}

/// A ray whose line passes through the centre of a sphere hits it, whatever
/// the radius.
pub proof fn ray_through_center_hits(
    origin: SpecVector3,
    direction: SpecVector3,
    center: SpecVector3,
    radius: int,
)
    requires
        passes_through(origin, direction, center),
    ensures
        intersects(origin, direction, center, radius),
{
    discriminant_closed_form(origin, direction, center, radius);
    lemma_nonnegative_product(radius, direction.x, direction.y, direction.z);
}

/// A ray hits every sphere whose centre is one of the points
/// `origin + t * direction`, whatever the radius.
pub proof fn ray_aimed_at_center_hits(
    origin: SpecVector3,
    direction: SpecVector3,
    t: int,
    radius: int,
)
    ensures
        intersects(origin, direction, origin.plus(direction.scaled(t)), radius),
{
    line_passes_through_its_points(origin, direction, t);
    ray_through_center_hits(origin, direction, origin.plus(direction.scaled(t)), radius);
}

/// A ray whose line stays farther from the centre than the radius misses the
/// sphere.
pub proof fn ray_beyond_radius_misses(
    origin: SpecVector3,
    direction: SpecVector3,
    center: SpecVector3,
    radius: int,
)
    requires
        closest_approach_sq(origin, direction, center) > radius * radius * direction.norm_sq(),
    ensures
        !intersects(origin, direction, center, radius),
{
    discriminant_closed_form(origin, direction, center, radius);
}

/// A ray whose line touches the sphere, its distance from the centre being
/// the radius exactly, has discriminant zero and counts as a hit.
pub proof fn tangent_ray_hits(
    origin: SpecVector3,
    direction: SpecVector3,
    center: SpecVector3,
    radius: int,
)
    requires
        closest_approach_sq(origin, direction, center) == radius * radius * direction.norm_sq(),
    ensures
        discriminant(origin, direction, center, radius) == 0,
        intersects(origin, direction, center, radius),
{
    discriminant_closed_form(origin, direction, center, radius);
}

/// The test reports a hit exactly when the line comes as close to the centre
/// as the radius, or closer.
pub proof fn hit_means_within_radius(
    origin: SpecVector3,
    direction: SpecVector3,
    center: SpecVector3,
    radius: int,
)
    ensures
        intersects(origin, direction, center, radius) == (closest_approach_sq(
            origin,
            direction,
            center,
        ) <= radius * radius * direction.norm_sq()),
{
    discriminant_closed_form(origin, direction, center, radius);
}

/// Stretching or reversing the direction multiplies the discriminant by a
/// positive square and so leaves the outcome of the test unchanged: the test
/// may be given a direction of any length.
pub proof fn direction_length_is_immaterial(
    origin: SpecVector3,
    direction: SpecVector3,
    center: SpecVector3,
    radius: int,
    k: int,
)
    requires
        k != 0,
    ensures
        discriminant(origin, direction.scaled(k), center, radius)
            == k * k * discriminant(origin, direction, center, radius),
        intersects(origin, direction.scaled(k), center, radius)
            == intersects(origin, direction, center, radius),
{
    let oc = origin.minus(center);
    let d = direction;
    lemma_scaled_products(oc.x, d.x, k);
    lemma_scaled_products(oc.y, d.y, k);
    lemma_scaled_products(oc.z, d.z, k);
    lemma_scaled_products(d.x, d.x, k);
    lemma_scaled_products(d.y, d.y, k);
    lemma_scaled_products(d.z, d.z, k);
    lemma_scaled_sums(k, oc.x * d.x, oc.y * d.y, oc.z * d.z);
    lemma_scaled_sums(k * k, d.x * d.x, d.y * d.y, d.z * d.z);
    lemma_scaled_discriminant(oc.dot(d), d.dot(d), oc.dot(oc) - radius * radius, k);
    lemma_same_sign(k * k, discriminant(origin, direction, center, radius));
}

} // verus!
