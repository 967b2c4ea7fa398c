//! Sums, means and population variances of whole-number samples.
//!
//! The mean and the variance of whole numbers are fractions. They are
//! specified here as real numbers, by their textbook definitions, and
//! compared with a bound in whole numbers: for `n` samples with sum `S` and
//! sum of squares `Q`, the mean is below `b` exactly when `S < b * n`, and the
//! variance is below `b` exactly when `n * Q - S^2 < b * n^2`.

use vstd::prelude::*;
use crate::wide::{U256, pow256, lemma_half_product_bound};

verus! {

/// The sum of `values`.
pub open spec fn sum(values: Seq<int>) -> int
    decreases values.len(),
{
    if values.len() == 0 {
        0
    } else {
        sum(values.drop_last()) + values.last()
    }
}

/// The sum of the squares of `values`.
pub open spec fn sum_sq(values: Seq<int>) -> int
    decreases values.len(),
{
    if values.len() == 0 {
        0
    } else {
        sum_sq(values.drop_last()) + values.last() * values.last()
    }
}

/// The mean of `values`: their sum over their number. Meaningful where
/// there is at least one.
pub open spec fn mean(values: Seq<int>) -> real {
    sum(values) as real / values.len() as real
}

/// The sum of the squared distances of `values` from `center`.
pub open spec fn squared_deviations(values: Seq<int>, center: real) -> real
    decreases values.len(),
{
    if values.len() == 0 {
        0real
    } else {
        squared_deviations(values.drop_last(), center) + (values.last() as real - center) * (
        values.last() as real - center)
    }
}

/// The population variance of `values`: the mean of their squared distances
/// from their mean. Meaningful where there is at least one.
pub open spec fn variance(values: Seq<int>) -> real {
    squared_deviations(values, mean(values)) / values.len() as real
}

/// `n^2` times the population variance of `n` samples with sum `total` and
/// sum of squares `squares`.
pub open spec fn scaled_variance(count: int, total: int, squares: int) -> int {
    count * squares - total * total
}

/// The largest square of a 64-bit magnitude, `(2^64 - 1)^2`.
pub open spec fn max_square() -> int {
    0xffff_ffff_ffff_fffe_0000_0000_0000_0001int
}

/// Taking one more sample into a prefix adds it to the prefix's sum and its
/// square to the prefix's sum of squares.
pub proof fn lemma_take_step(values: Seq<int>, k: int)
    requires
        0 <= k < values.len(),
    ensures
        sum(values.take(k + 1)) == sum(values.take(k)) + values[k],
        sum_sq(values.take(k + 1)) == sum_sq(values.take(k)) + values[k] * values[k],
{
    assert(values.take(k + 1).drop_last() =~= values.take(k));
}

/// Where no sample is negative, no prefix sums to more than the whole.
pub proof fn lemma_prefix_sum(values: Seq<int>, k: int)
    requires
        0 <= k <= values.len(),
        forall|i: int| 0 <= i < values.len() ==> values[i] >= 0,
    ensures
        sum(values.take(k)) <= sum(values),
    decreases values.len() - k,
{
    if k == values.len() {
        assert(values.take(k) =~= values);
    } else {
        lemma_take_step(values, k);
        lemma_prefix_sum(values, k + 1);
    }
}

/// Samples that all have one value sum to that value times their number, and
/// their squares to its square times their number.
pub proof fn lemma_constant_sums(values: Seq<int>, value: int)
    requires
        forall|i: int| 0 <= i < values.len() ==> values[i] == value,
    ensures
        sum(values) == values.len() * value,
        sum_sq(values) == values.len() * (value * value),
    decreases values.len(),
{
    if values.len() > 0 {
        let n: int = values.len() as int;
        lemma_constant_sums(values.drop_last(), value);
        assert((n - 1) * value + value == n * value) by (nonlinear_arith);
        assert((n - 1) * (value * value) + value * value == n * (value * value))
            by (nonlinear_arith);
    }
}

/// The mean of at least one sample lies below a whole bound exactly when
/// their sum lies below the bound times their number.
pub proof fn lemma_mean_against_bound(values: Seq<int>, bound: int)
    requires
        values.len() > 0,
    ensures
        mean(values) < bound as real <==> sum(values) < bound * values.len(),
{
    let n: int = values.len() as int;
    let s: int = sum(values);
    let quotient: real = s as real / n as real;
    let b: real = bound as real;
    assert(quotient < b <==> s < bound * n) by (nonlinear_arith)
        requires
            n > 0,
            quotient == s as real / n as real,
            b == bound as real,
    ;
}

/// The squared distances from any centre `c` add up to `Q - 2*c*S + n*c^2`.
pub proof fn lemma_squared_deviations(values: Seq<int>, center: real)
    ensures
        squared_deviations(values, center) == sum_sq(values) as real - 2real * center * sum(
            values,
        ) as real + values.len() as real * center * center,
    decreases values.len(),
{
    if values.len() == 0 {
        assert(0real - 2real * center * 0real + 0real * center * center == 0real)
            by (nonlinear_arith);
    } else {
        let rest: Seq<int> = values.drop_last();
        lemma_squared_deviations(rest, center);
        let x: real = values.last() as real;
        let s: real = sum(rest) as real;
        let q: real = sum_sq(rest) as real;
        let m: real = rest.len() as real;
        assert(sum(values) as real == s + x);
        assert(sum_sq(values) as real == q + x * x) by {
            assert((values.last() * values.last()) as real == x * x) by (nonlinear_arith)
                requires
                    x == values.last() as real,
            ;
        }
        assert(values.len() as real == m + 1real);
        assert(q - 2real * center * s + m * center * center + (x - center) * (x - center) == (q + x
            * x) - 2real * center * (s + x) + (m + 1real) * center * center) by (nonlinear_arith);
        assert(squared_deviations(values, center) == squared_deviations(rest, center) + (x
            - center) * (x - center));
        assert(squared_deviations(rest, center) == q - 2real * center * s + m * center * center);
    }
}

/// The variance of at least one sample is `(n * Q - S^2) / n^2`, so it lies
/// below a whole bound exactly when `n * Q - S^2` lies below the bound times
/// `n^2`.
pub proof fn lemma_variance_against_bound(values: Seq<int>, bound: int)
    requires
        values.len() > 0,
    ensures
        variance(values) < bound as real <==> scaled_variance(
            values.len() as int,
            sum(values),
            sum_sq(values),
        ) < bound * values.len() * values.len(),
{
    let n: real = values.len() as real;
    let s: real = sum(values) as real;
    let q: real = sum_sq(values) as real;
    let b: real = bound as real;
    let mu: real = mean(values);
    lemma_squared_deviations(values, mu);
    assert(variance(values) < b <==> n * q - s * s < b * n * n) by (nonlinear_arith)
        requires
            n > 0real,
            mu == s / n,
            variance(values) == (q - 2real * mu * s + n * mu * mu) / n,
    ;
    assert((values.len() * sum_sq(values) - sum(values) * sum(values)) as real == n * q - s * s)
        by (nonlinear_arith)
        requires
            n == values.len() as real,
            s == sum(values) as real,
            q == sum_sq(values) as real,
    ;
    assert((bound * values.len() * values.len()) as real == b * n * n) by (nonlinear_arith)
        requires
            n == values.len() as real,
            b == bound as real,
    ;
}

/// Samples that all have one value have that value as their mean and no
/// variance.
pub proof fn lemma_constant_has_no_variance(values: Seq<int>, value: int)
    requires
        values.len() > 0,
        forall|i: int| 0 <= i < values.len() ==> values[i] == value,
    ensures
        mean(values) == value as real,
        variance(values) == 0real,
{
    let n: real = values.len() as real;
    let v: real = value as real;
    lemma_constant_sums(values, value);
    lemma_squared_deviations(values, mean(values));
    assert(sum(values) as real == n * v) by (nonlinear_arith)
        requires
            sum(values) == values.len() * value,
            n == values.len() as real,
            v == value as real,
    ;
    assert(sum_sq(values) as real == n * (v * v)) by (nonlinear_arith)
        requires
            sum_sq(values) == values.len() * (value * value),
            n == values.len() as real,
            v == value as real,
    ;
    assert((n * v) / n == v && (n * (v * v) - 2real * v * (n * v) + n * v * v) / n == 0real)
        by (nonlinear_arith)
        requires
            n > 0real,
    ;
}

proof fn lemma_scale_fits(count: int, squares: int)
    by (nonlinear_arith)
    requires
        0 <= count < 0x1_0000_0000_0000_0000int,
        0 <= squares <= count * 0xffff_ffff_ffff_fffe_0000_0000_0000_0001int,
    ensures
        0 <= squares * count,
        squares * count < 0x1_0000_0000_0000_0000_0000_0000_0000_0000int
            * 0x1_0000_0000_0000_0000_0000_0000_0000_0000int,
{
    let m: int = 0xffff_ffff_ffff_fffe_0000_0000_0000_0001int;
    assert(squares * count <= (count * m) * count);
    assert((count * m) * count == (count * count) * m);
    assert(count * count <= m);
    assert((count * count) * m <= m * m);
}

/// Decides whether `n^2` times the population variance of `count` samples is
/// below `bound * n^2`, from the magnitude `total` of their sum and the sum
/// `squares` of their squares.
pub fn spread_below(count: u64, total: u128, squares: U256, bound: u64) -> (r: bool)
    requires
        squares@ <= count * max_square(),
    ensures
        r == (scaled_variance(count as int, total as int, squares@) < bound * count * count),
{
    proof {
        squares.lemma_range();
        lemma_scale_fits(count as int, squares@);
        lemma_half_product_bound(count as int, count as int);
        assert(pow256() == 0x1_0000_0000_0000_0000_0000_0000_0000_0000int
            * 0x1_0000_0000_0000_0000_0000_0000_0000_0000int);
    }
    let spread: U256 = squares.times_u64(count);
    let mean_part: U256 = U256::product(total, total);
    let count_sq: u128 = (count as u128) * (count as u128);
    let allowed: U256 = U256::product(count_sq, bound as u128);
    proof {
        assert(count_sq * bound == bound * count * count) by (nonlinear_arith)
            requires
                count_sq == count * count,
        ;
        assert(squares@ * count == count * squares@) by (nonlinear_arith);
    }
    if spread.less_than(mean_part) {
        proof {
            assert(0 <= bound * count * count) by (nonlinear_arith);
        }
        true
    } else {
        spread.minus(mean_part).less_than(allowed)
    }
}

} // verus!
