//! Integer square roots: the largest whole number whose square does not
//! exceed a given one.

use vstd::prelude::*;

verus! {

/// `root` is the square root of `value`, rounded down.
pub open spec fn is_floor_root(value: int, root: int) -> bool {
    0 <= root && root * root <= value < (root + 1) * (root + 1)
}

/// The square root of `value`, rounded down.
pub open spec fn floor_root(value: int) -> int {
    choose|root: int| is_floor_root(value, root)
}

/// Squaring keeps the order of natural numbers.
proof fn lemma_square_monotone(a: int, b: int)
    by (nonlinear_arith)
    requires
        0 <= a <= b,
    ensures
        a * a <= b * b,
{
}

/// At most one number is the rounded-down square root of `value`.
pub proof fn lemma_floor_root_unique(value: int, a: int, b: int)
    requires
        is_floor_root(value, a),
        is_floor_root(value, b),
    ensures
        a == b,
{
    if a < b {
        lemma_square_monotone(a + 1, b);
    }
    if b < a {
        lemma_square_monotone(b + 1, a);
    }
}

/// Any number that satisfies the definition is the rounded-down square root.
pub proof fn lemma_floor_root_is(value: int, root: int)
    requires
        is_floor_root(value, root),
    ensures
        floor_root(value) == root,
{
    lemma_floor_root_unique(value, floor_root(value), root);
}

/// The square root of `value`, rounded down, found by bisection.
pub fn integer_sqrt(value: u128) -> (root: u64)
    ensures
        is_floor_root(value as int, root as int),
        root == floor_root(value as int),
{
    let mut low: u128 = 0;
    let mut high: u128 = 0x1_0000_0000_0000_0000;
    while high - low > 1
        invariant
            low < high <= 0x1_0000_0000_0000_0000,
            low * low <= value < high * high,
        decreases high - low,
    {
        let middle: u128 = low + (high - low) / 2;
        proof {
            lemma_square_monotone(middle as int, 0xffff_ffff_ffff_ffffint);
        }
        if middle * middle <= value {
            low = middle;
        } else {
            high = middle;
        }
    }
    proof {
        lemma_floor_root_is(value as int, low as int);
    }
    low as u64
}

} // verus!
