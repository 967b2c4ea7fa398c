//! Exact 256-bit natural numbers, wide enough for the product of two `u128`s.
//!
//! The analyses compare sums of squares against squared sums. With 64-bit
//! counts and 64-bit terms those quantities need up to 256 bits, so they are
//! carried here as two 128-bit halves and every operation is exact.

use vstd::prelude::*;

verus! {

/// Two to the power 64.
pub open spec fn pow64() -> int {
    0x1_0000_0000_0000_0000int
}

/// Two to the power 128.
pub open spec fn pow128() -> int {
    0x1_0000_0000_0000_0000_0000_0000_0000_0000int
}

/// Two to the power 256.
pub open spec fn pow256() -> int {
    pow128() * pow128()
}

/// A natural number below two to the power 256, held as two 128-bit halves.
#[derive(Clone, Copy, Debug)]
pub struct U256 {
    pub hi: u128,
    pub lo: u128,
}

impl View for U256 {
    type V = int;

    open spec fn view(&self) -> int {
        self.hi * pow128() + self.lo
    }
}

/// The product of two numbers below `2^64` is at most `(2^64 - 1)^2`.
pub proof fn lemma_half_product_bound(x: int, y: int)
    by (nonlinear_arith)
    requires
        0 <= x < 0x1_0000_0000_0000_0000int,
        0 <= y < 0x1_0000_0000_0000_0000int,
    ensures
        0 <= x * y <= 0xffff_ffff_ffff_fffe_0000_0000_0000_0001int,
{
}

/// Schoolbook multiplication in base `b`.
proof fn lemma_schoolbook(a1: int, a0: int, b1: int, b0: int, b: int)
    by (nonlinear_arith)
    ensures
        (a1 * b + a0) * (b1 * b + b0) == (a1 * b1) * (b * b) + (a0 * b1 + a1 * b0) * b + a0 * b0,
{
    let x: int = a1 * b;
    let y: int = b1 * b;
    assert((x + a0) * (y + b0) == x * y + x * b0 + a0 * y + a0 * b0);
    assert(x * y == (a1 * b1) * (b * b));
    assert(x * b0 == (a1 * b0) * b);
    assert(a0 * y == (a0 * b1) * b);
    assert((a0 * b1 + a1 * b0) * b == (a0 * b1) * b + (a1 * b0) * b);
}

/// A number whose multiple by a positive factor stays below a bound times
/// that factor is itself below the bound.
proof fn lemma_cancel_bound(x: int, f: int, bound: int)
    by (nonlinear_arith)
    requires
        0 < f,
        x * f < bound * f,
    ensures
        x < bound,
{
}

impl U256 {
    /// Every value is a natural number below `2^256`.
    pub proof fn lemma_range(self)
        ensures
            0 <= self@ < pow256(),
    {
        assert(pow256() == pow128() * pow128());
        assert(self.hi * pow128() + self.lo < pow128() * pow128()) by (nonlinear_arith)
            requires
                0 <= self.hi < pow128(),
                0 <= self.lo < pow128(),
        ;
    }

    /// The number `value`, widened.
    pub fn from_u128(value: u128) -> (r: U256)
        ensures
            r@ == value,
    {
        U256 { hi: 0, lo: value }
    }

    /// The exact product of `a` and `b`.
    pub fn product(a: u128, b: u128) -> (r: U256)
        ensures
            r@ == a * b,
    {
        let base: u128 = 0x1_0000_0000_0000_0000;
        let a1: u128 = a / base;
        let a0: u128 = a % base;
        let b1: u128 = b / base;
        let b0: u128 = b % base;
        proof {
            lemma_half_product_bound(a0 as int, b0 as int);
            lemma_half_product_bound(a0 as int, b1 as int);
            lemma_half_product_bound(a1 as int, b0 as int);
            lemma_half_product_bound(a1 as int, b1 as int);
        }
        let low: u128 = a0 * b0;
        let cross_a: u128 = a0 * b1;
        let cross_b: u128 = a1 * b0;
        let high: u128 = a1 * b1;
        let middle: u128 = low / base + cross_a % base + cross_b % base;
        let lo: u128 = (middle % base) * base + low % base;
        let hi: u128 = high + cross_a / base + cross_b / base + middle / base;
        proof {
            lemma_schoolbook(a1 as int, a0 as int, b1 as int, b0 as int, pow64());
            assert(pow64() * pow64() == pow128());
            assert((cross_a + cross_b) * pow64() == (cross_a / base + cross_b / base) * pow128() + (
            cross_a % base + cross_b % base) * pow64());
            assert(high * (pow64() * pow64()) == high * pow128());
            assert(a * b == (a1 * pow64() + a0) * (b1 * pow64() + b0));
        }
        U256 { hi, lo }
    }

    /// The sum of `self` and `value`, where it fits.
    pub fn plus_u128(self, value: u128) -> (r: U256)
        requires
            self@ + value < pow256(),
        ensures
            r@ == self@ + value,
    {
        if value <= u128::MAX - self.lo {
            U256 { hi: self.hi, lo: self.lo + value }
        } else {
            proof {
                if self.hi == u128::MAX {
                    assert(self@ + value >= pow256());
                }
            }
            U256 { hi: self.hi + 1, lo: value - (u128::MAX - self.lo) - 1 }
        }
    }

    /// The difference of `self` and `other`, where `other` is not the larger.
    pub fn minus(self, other: U256) -> (r: U256)
        requires
            other@ <= self@,
        ensures
            r@ == self@ - other@,
    {
        proof {
            if self.hi < other.hi {
                assert(other.hi * pow128() >= (self.hi + 1) * pow128());
            }
        }
        if self.lo >= other.lo {
            U256 { hi: self.hi - other.hi, lo: self.lo - other.lo }
        } else {
            U256 { hi: self.hi - other.hi - 1, lo: self.lo + (u128::MAX - other.lo) + 1 }
        }
    }

    /// The product of `self` and `factor`, where it fits.
    pub fn times_u64(self, factor: u64) -> (r: U256)
        requires
            self@ * factor < pow256(),
        ensures
            r@ == self@ * factor,
    {
        if factor == 0 {
            assert(self@ * 0 == 0);
            return U256 { hi: 0, lo: 0 };
        }
        let low: U256 = U256::product(self.lo, factor as u128);
        proof {
            let f: int = factor as int;
            assert(self@ * f == (self.hi * f) * pow128() + self.lo * f) by (nonlinear_arith)
                requires
                    self@ == self.hi * pow128() + self.lo,
            ;
            assert(self.hi * f + low.hi < pow128()) by {
                assert((self.hi * f + low.hi) * pow128() <= self@ * f);
                assert(pow256() == pow128() * pow128());
                lemma_cancel_bound(self.hi * f + low.hi, pow128(), pow128());
            }
            assert(0 <= self.hi * f) by (nonlinear_arith)
                requires
                    0 <= self.hi,
                    0 <= f,
            ;
        }
        let hi: u128 = self.hi * (factor as u128) + low.hi;
        U256 { hi, lo: low.lo }
    }

    /// Whether `self` is the smaller number.
    pub fn less_than(self, other: U256) -> (r: bool)
        ensures
            r == (self@ < other@),
    {
        proof {
            if self.hi < other.hi {
                assert(other.hi * pow128() >= (self.hi + 1) * pow128());
            }
            if other.hi < self.hi {
                assert(self.hi * pow128() >= (other.hi + 1) * pow128());
            }
        }
        self.hi < other.hi || (self.hi == other.hi && self.lo < other.lo)
    }
}

} // verus!
