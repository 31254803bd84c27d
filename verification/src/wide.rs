//! Exact products of factors below 2^66, which do not fit 128 bits.

use vstd::prelude::*;

verus! {

/// Exclusive bound on the factors of a wide product: 2^66.
pub(crate) const FACTOR_LIMIT: u128 = 0x4_0000_0000_0000_0000;

/// 2^33, the square root of `FACTOR_LIMIT`.
pub(crate) const HALF_LIMIT: u128 = 0x2_0000_0000;

/// The natural number `high * 2^66 + low`.
pub(crate) struct Wide {
    pub(crate) high: u128,
    pub(crate) low: u128,
}

impl Wide {
    pub(crate) open spec fn value(self) -> int {
        self.high * FACTOR_LIMIT + self.low
    }
}

proof fn lemma_below_half_limit_product(x: int, y: int)
    by (nonlinear_arith)
    requires
        0 <= x < 0x2_0000_0000,
        0 <= y < 0x2_0000_0000,
    ensures
        0 <= x * y < 0x4_0000_0000_0000_0000,
{
}

proof fn lemma_expand(a: int, b: int, c: int, d: int)
    by (nonlinear_arith)
    ensures
        (a + b) * (c + d) == a * c + a * d + b * c + b * d,
{
}

proof fn lemma_regroup(x: int, y: int, h: int)
    by (nonlinear_arith)
    ensures
        (x * h) * (y * h) == (x * y) * (h * h),
        (x * h) * y == (x * y) * h,
        x * (y * h) == (x * y) * h,
{
}

proof fn lemma_split_product(xh: int, xl: int, yh: int, yl: int, h: int)
    ensures
        (xh * h + xl) * (yh * h + yl) == (xh * yh) * (h * h) + (xh * yl + xl * yh) * h + xl * yl,
{
    lemma_expand(xh * h, xl, yh * h, yl);
    lemma_regroup(xh, yh, h);
    lemma_regroup(xh, yl, h);
    lemma_regroup(xl, yh, h);
    lemma_expand(xh * yl, xl * yh, h, 0);
}

/// Multiplies two factors below 2^66 without loss.
pub(crate) fn wide_product(x: u128, y: u128) -> (p: Wide)
    requires
        x < FACTOR_LIMIT,
        y < FACTOR_LIMIT,
    ensures
        p.value() == x * y,
        p.low < FACTOR_LIMIT,
{
    let xh: u128 = x / HALF_LIMIT;
    let xl: u128 = x % HALF_LIMIT;
    let yh: u128 = y / HALF_LIMIT;
    let yl: u128 = y % HALF_LIMIT;
    proof {
        lemma_below_half_limit_product(xh as int, yh as int);
        lemma_below_half_limit_product(xh as int, yl as int);
        lemma_below_half_limit_product(xl as int, yh as int);
        lemma_below_half_limit_product(xl as int, yl as int);
        lemma_split_product(xh as int, xl as int, yh as int, yl as int, HALF_LIMIT as int);
    }
    let top: u128 = xh * yh;
    let middle: u128 = xh * yl + xl * yh;
    let bottom: u128 = xl * yl;
    let rest: u128 = middle * HALF_LIMIT + bottom;
    let carry: u128 = rest / FACTOR_LIMIT;
    let low: u128 = rest % FACTOR_LIMIT;
    assert(x * y == top * 0x4_0000_0000_0000_0000 + rest) by {
        assert(x == xh * 0x2_0000_0000 + xl);
        assert(y == yh * 0x2_0000_0000 + yl);
        assert(0x2_0000_0000int * 0x2_0000_0000int == 0x4_0000_0000_0000_0000int);
    }
    assert(rest == carry * 0x4_0000_0000_0000_0000 + low);
    Wide { high: top + carry, low }
}

/// Decides `x1 * y1 >= x2 * y2` for factors below 2^66.
pub(crate) fn product_at_least(x1: u128, y1: u128, x2: u128, y2: u128) -> (holds: bool)
    requires
        x1 < FACTOR_LIMIT,
        y1 < FACTOR_LIMIT,
        x2 < FACTOR_LIMIT,
        y2 < FACTOR_LIMIT,
    ensures
        holds == (x1 * y1 >= x2 * y2),
{
    let p = wide_product(x1, y1);
    let q = wide_product(x2, y2);
    p.high > q.high || (p.high == q.high && p.low >= q.low)
}

} // verus!
