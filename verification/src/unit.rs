//! Directions of unit length, in fixed point.

use vstd::prelude::*;
use vstd::arithmetic::div_mod::{
    lemma_div_is_ordered,
    lemma_div_multiples_vanish,
    lemma_div_pos_is_pos,
    lemma_fundamental_div_mod,
    lemma_mod_pos_bound,
};
use crate::sqrt::{floor_sqrt, floor_sqrt_is_floor, floor_sqrt_is_unique, integer_sqrt};
use crate::vector::{SpecVector3, Vector3};

verus! {

/// The length that stands for 1 in a direction: 2^30.
pub const DIRECTION_UNIT: i32 = 0x4000_0000;

/// One component of a direction of unit length: the component `c` of a
/// vector whose squared length is `norm_sq`, divided by that vector's length,
/// in units of `1 / DIRECTION_UNIT` and rounded towards zero.
pub open spec fn unit_component(c: int, norm_sq: int) -> int {
    let magnitude = floor_sqrt((c * c) * (DIRECTION_UNIT * DIRECTION_UNIT) / norm_sq);
    if c < 0 {
        -magnitude
    } else {
        magnitude
    }
}

/// The vector `v` brought to unit length: each component divided by the
/// length of `v`, in units of `1 / DIRECTION_UNIT` and rounded towards zero.
/// The zero vector has no direction and stays as it is.
pub open spec fn unit_direction(v: SpecVector3) -> SpecVector3 {
    if v.is_zero() {
        v
    } else {
        SpecVector3 {
            x: unit_component(v.x, v.norm_sq()),
            y: unit_component(v.y, v.norm_sq()),
            z: unit_component(v.z, v.norm_sq()),
        }
    }
}

/// Whether the length of `d` is `DIRECTION_UNIT` to within two units, that
/// is 1 to within two parts in 2^30.
pub open spec fn has_unit_length(d: SpecVector3) -> bool {
    let least = (DIRECTION_UNIT - 2) * (DIRECTION_UNIT - 2);
    let most = (DIRECTION_UNIT + 2) * (DIRECTION_UNIT + 2);
    least <= d.norm_sq() <= most
}

proof fn lemma_square(c: int)
    by (nonlinear_arith)
    ensures
        c * c >= 0,
        (-c) * (-c) == c * c,
        c != 0 ==> c * c > 0,
{
}

proof fn lemma_scale_bounds(m: int, q: int, n: int, numerator: int)
    by (nonlinear_arith)
    requires
        0 <= m,
        m * m <= q < (m + 1) * (m + 1),
        0 < n,
        n * q <= numerator < n * q + n,
    ensures
        m * m * n <= numerator < (m + 1) * (m + 1) * n,
{
    assert(m * m * n <= q * n);
    assert((q + 1) * n <= (m + 1) * (m + 1) * n);
}

proof fn lemma_sum_of_squares(a: int, b: int, c: int, n: int, uu: int, x: int, y: int, z: int)
    by (nonlinear_arith)
    requires
        0 < n,
        n == x + y + z,
        a * n <= x * uu,
        b * n <= y * uu,
        c * n <= z * uu,
    ensures
        a + b + c <= uu,
{
    assert((a + b + c) * n <= (x + y + z) * uu);
}

proof fn lemma_sum_of_next_squares(
    a: int,
    b: int,
    c: int,
    n: int,
    uu: int,
    x: int,
    y: int,
    z: int,
)
    by (nonlinear_arith)
    requires
        0 < n,
        n == x + y + z,
        x * uu < a * n,
        y * uu < b * n,
        z * uu < c * n,
    ensures
        uu < a + b + c,
{
    assert((x + y + z) * uu < (a + b + c) * n);
}

proof fn lemma_next_squares_expand(a: int, b: int, c: int)
    by (nonlinear_arith)
    ensures
        (a + 1) * (a + 1) + (b + 1) * (b + 1) + (c + 1) * (c + 1)
            == a * a + b * b + c * c + 2 * (a + b + c) + 3,
        (a + b + c) * (a + b + c) <= 3 * (a * a + b * b + c * c),
{
}

proof fn lemma_length_from_below(s: int, t: int, u: int)
    by (nonlinear_arith)
    requires
        2 <= u,
        0 <= t,
        t * t <= 3 * s,
        u * u < s + 2 * t + 3,
    ensures
        (u - 2) * (u - 2) <= s,
{
    if s < (u - 2) * (u - 2) {
        assert(t * t < 4 * ((u - 2) * (u - 2)));
        if t >= 2 * (u - 2) {
            assert(t * t >= (2 * (u - 2)) * (2 * (u - 2)));
        }
        assert(t <= 2 * u - 5);
        assert(u * u == (u - 2) * (u - 2) + 4 * u - 4);
    }
}

/// `unit_component` rounds the exact quotient towards zero: its magnitude
/// `m` is the largest with `m / DIRECTION_UNIT <= |c| / length`, compared
/// here by the squares. It has the sign of `c`.
pub proof fn unit_component_rounds_toward_zero(c: int, norm_sq: int)
    requires
        0 < norm_sq,
    ensures
        ({
            let m = if c < 0 {
                -unit_component(c, norm_sq)
            } else {
                unit_component(c, norm_sq)
            };
            let scale = DIRECTION_UNIT * DIRECTION_UNIT;
            &&& 0 <= m
            &&& m * m * norm_sq <= (c * c) * scale < (m + 1) * (m + 1) * norm_sq
        }),
{
    let numerator = (c * c) * (DIRECTION_UNIT * DIRECTION_UNIT);
    let q = numerator / norm_sq;
    lemma_square(c);
    lemma_div_pos_is_pos(numerator, norm_sq);
    lemma_fundamental_div_mod(numerator, norm_sq);
    lemma_mod_pos_bound(numerator, norm_sq);
    floor_sqrt_is_floor(q);
    lemma_scale_bounds(floor_sqrt(q), q, norm_sq, numerator);
}

/// A vector brought to unit length has unit length, whatever it was.
pub proof fn unit_direction_has_unit_length(v: SpecVector3)
    requires
        !v.is_zero(),
    ensures
        has_unit_length(unit_direction(v)),
        unit_direction(v).norm_sq() <= DIRECTION_UNIT * DIRECTION_UNIT,
{
    let n = v.norm_sq();
    let uu = DIRECTION_UNIT * DIRECTION_UNIT;
    lemma_square(v.x);
    lemma_square(v.y);
    lemma_square(v.z);
    unit_component_rounds_toward_zero(v.x, n);
    unit_component_rounds_toward_zero(v.y, n);
    unit_component_rounds_toward_zero(v.z, n);
    let d = unit_direction(v);
    let a = if v.x < 0 { -d.x } else { d.x };
    let b = if v.y < 0 { -d.y } else { d.y };
    let c = if v.z < 0 { -d.z } else { d.z };
    lemma_square(d.x);
    lemma_square(d.y);
    lemma_square(d.z);
    assert(d.norm_sq() == a * a + b * b + c * c);
    lemma_sum_of_squares(a * a, b * b, c * c, n, uu, v.x * v.x, v.y * v.y, v.z * v.z);
    lemma_sum_of_next_squares(
        (a + 1) * (a + 1),
        (b + 1) * (b + 1),
        (c + 1) * (c + 1),
        n,
        uu,
        v.x * v.x,
        v.y * v.y,
        v.z * v.z,
    );
    lemma_next_squares_expand(a, b, c);
    lemma_length_from_below(a * a + b * b + c * c, a + b + c, DIRECTION_UNIT as int);
}

/// A vector along an axis is brought to unit length exactly.
pub proof fn unit_direction_along_axis(k: int)
    requires
        k != 0,
    ensures
        unit_direction(SpecVector3 { x: 0, y: 0, z: k }).x == 0,
        unit_direction(SpecVector3 { x: 0, y: 0, z: k }).y == 0,
        unit_direction(SpecVector3 { x: 0, y: 0, z: k }).z == if k < 0 {
            -DIRECTION_UNIT
        } else {
            DIRECTION_UNIT as int
        },
{
    let v = SpecVector3 { x: 0, y: 0, z: k };
    let n = v.norm_sq();
    let uu = DIRECTION_UNIT * DIRECTION_UNIT;
    lemma_square(k);
    assert(n == k * k);
    lemma_div_multiples_vanish(uu, n);
    assert((k * k) * uu / n == uu);
    assert((0int * 0int) * uu / n == 0) by {
        lemma_div_multiples_vanish(0, n);
    }
    floor_sqrt_is_unique(uu, DIRECTION_UNIT as int);
    floor_sqrt_is_unique(0, 0);
}

fn magnitude(c: i32) -> (m: u128)
    ensures
        m == if c < 0 {
            -c
        } else {
            c as int
        },
        m <= 0x8000_0000,
{
    if c < 0 {
        (-(c as i64)) as u128
    } else {
        c as u128
    }
}

proof fn lemma_magnitude_square(m: int)
    by (nonlinear_arith)
    requires
        0 <= m <= 0x8000_0000,
    ensures
        0 <= m * m <= 0x4000_0000_0000_0000,
{
}

proof fn lemma_root_bound(r: int, q: int)
    by (nonlinear_arith)
    requires
        0 <= r,
        r * r <= q,
        q <= 0x4000_0000 * 0x4000_0000,
    ensures
        r <= 0x4000_0000,
{
    if r > 0x4000_0000 {
        assert(r * r >= 0x4000_0001 * 0x4000_0001);
    }
}

/// Computes one component of the unit vector.
fn scaled_component(c: i32, norm_sq: u128) -> (component: i32)
    requires
        0 < norm_sq,
        c * c <= norm_sq,
    ensures
        component == unit_component(c as int, norm_sq as int),
{
    let m: u128 = magnitude(c);
    proof {
        lemma_magnitude_square(m as int);
        lemma_square(c as int);
    }
    let square: u128 = m * m;
    let numerator: u128 = square * 0x1000_0000_0000_0000;
    let quotient: u128 = numerator / norm_sq;
    proof {
        assert(numerator == (c * c) * (DIRECTION_UNIT * DIRECTION_UNIT));
        let uu: int = 0x1000_0000_0000_0000;
        assert(numerator <= norm_sq * uu) by (nonlinear_arith)
            requires
                numerator == square * uu,
                square <= norm_sq,
                uu >= 0,
        ;
        lemma_div_is_ordered(numerator as int, norm_sq * uu, norm_sq as int);
        lemma_div_multiples_vanish(uu, norm_sq as int);
    }
    let root: u64 = integer_sqrt(quotient as u64);
    proof {
        lemma_root_bound(root as int, quotient as int);
    }
    if c < 0 {
        -(root as i32)
    } else {
        root as i32
    }
}

impl Vector3 {
    /// Brings the vector to unit length, in units of `1 / DIRECTION_UNIT`.
    /// The zero vector is returned as it is.
    pub fn normalized(&self) -> (unit: Vector3)
        ensures
            unit@ == unit_direction(self@),
            !self@.is_zero() ==> has_unit_length(unit@),
    {
        if self.x == 0 && self.y == 0 && self.z == 0 {
            return *self;
        }
        let x: u128 = magnitude(self.x);
        let y: u128 = magnitude(self.y);
        let z: u128 = magnitude(self.z);
        proof {
            lemma_magnitude_square(x as int);
            lemma_magnitude_square(y as int);
            lemma_magnitude_square(z as int);
            lemma_square(self.x as int);
            lemma_square(self.y as int);
            lemma_square(self.z as int);
        }
        let norm_sq: u128 = x * x + y * y + z * z;
        proof {
            assert(norm_sq == self@.norm_sq());
            unit_direction_has_unit_length(self@);
        }
        Vector3 {
            x: scaled_component(self.x, norm_sq),
            y: scaled_component(self.y, norm_sq),
            z: scaled_component(self.z, norm_sq),
        }
    }
}

} // verus!
