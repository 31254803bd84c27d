//! Integer square roots.

use vstd::prelude::*;

verus! {

/// Whether `root` is the square root of `n` rounded down.
pub open spec fn is_floor_sqrt(n: int, root: int) -> bool {
    0 <= root && root * root <= n < (root + 1) * (root + 1)
}

/// The square root of a natural number `n`, rounded down.
pub open spec fn floor_sqrt(n: int) -> int {
    choose|root: int| is_floor_sqrt(n, root)
}

proof fn lemma_next_square(r: int, n: int)
    by (nonlinear_arith)
    requires
        0 <= r,
        n <= (r + 1) * (r + 1),
    ensures
        n < (r + 2) * (r + 2),
{
}

proof fn lemma_squares_grow(a: int, b: int)
    by (nonlinear_arith)
    requires
        0 <= a <= b,
    ensures
        a * a <= b * b,
{
}

proof fn lemma_floor_sqrt_exists(n: int) -> (root: int)
    requires
        0 <= n,
    ensures
        is_floor_sqrt(n, root),
    decreases n,
{
    if n == 0 {
        0
    } else {
        let below = lemma_floor_sqrt_exists(n - 1);
        if (below + 1) * (below + 1) <= n {
            lemma_next_square(below, n);
            assert(below + 1 + 1 == below + 2);
            below + 1
        } else {
            below
        }
    }
}

/// Every natural number has a rounded-down square root.
pub proof fn floor_sqrt_is_floor(n: int)
    requires
        0 <= n,
    ensures
        is_floor_sqrt(n, floor_sqrt(n)),
{
    let root = lemma_floor_sqrt_exists(n);
}

/// It has only one.
pub proof fn floor_sqrt_is_unique(n: int, root: int)
    requires
        is_floor_sqrt(n, root),
    ensures
        root == floor_sqrt(n),
{
    let other = floor_sqrt(n);
    if root < other {
        lemma_squares_grow(root + 1, other);
    }
    if other < root {
        lemma_squares_grow(other + 1, root);
    }
}

/// Computes the square root of `n` rounded down, by bisection.
pub fn integer_sqrt(n: u64) -> (root: u64)
    ensures
        root == floor_sqrt(n as int),
        is_floor_sqrt(n as int, root as int),
{
    let mut low: u64 = 0;
    let mut high: u64 = 0x1_0000_0000;
    while high - low > 1
        invariant
            low < high <= 0x1_0000_0000,
            low * low <= n < high * high,
        decreases high - low,
    {
        let middle: u64 = low + (high - low) / 2;
        proof {
            lemma_squares_grow(middle as int, 0xffff_ffff);
        }
        if middle * middle <= n {
            low = middle;
        } else {
            high = middle;
        }
    }
    proof {
        floor_sqrt_is_unique(n as int, low as int);
    }
    low
}

} // verus!
