//! Keystroke dynamics: keys that follow one another faster than fingers can
//! type, or at a perfectly even cadence, are taken for generated ones.
//!
//! The analysis reads only the instants of the key presses. Its samples are
//! the gaps between consecutive presses, in microseconds; a gap is negative
//! where the instants run backwards.

use vstd::prelude::*;
use crate::sample::{KeySample, SubScore, key_times};
use crate::stats::{
    lemma_mean_against_bound,
    lemma_take_step,
    lemma_variance_against_bound,
    max_square,
    mean,
    spread_below,
    sum,
    sum_sq,
    variance,
};
use crate::wide::{U256, lemma_half_product_bound};

verus! {

/// A mean gap below this, in microseconds, is faster than a human types:
/// 50 ms.
pub const MIN_MEAN_GAP: u64 = 50_000;

/// A variance of the gaps below this, in microseconds squared, is too even
/// for a human: 10 ms^2.
pub const MIN_GAP_VARIANCE: u64 = 10_000_000;

/// The gaps between consecutive instants.
pub open spec fn gaps(times: Seq<int>) -> Seq<int> {
    if times.len() == 0 {
        Seq::empty()
    } else {
        Seq::new((times.len() - 1) as nat, |i: int| times[i + 1] - times[i])
    }
}

/// What the cadence of key presses at `times` says: nothing either way with
/// fewer than two presses; generated if the mean gap is below
/// `MIN_MEAN_GAP` or the variance of the gaps is below `MIN_GAP_VARIANCE`;
/// human otherwise.
pub open spec fn keystroke_score(times: Seq<int>) -> SubScore {
    if times.len() < 2 {
        SubScore::Neutral
    } else if mean(gaps(times)) < MIN_MEAN_GAP as real {
        SubScore::Bot
    } else if variance(gaps(times)) < MIN_GAP_VARIANCE as real {
        SubScore::Bot
    } else {
        SubScore::Human
    }
}

/// The gaps up to the `k`-th add up to the time from the first instant to
/// the `k`-th.
pub proof fn lemma_gaps_telescope(times: Seq<int>, k: int)
    requires
        0 <= k < times.len(),
    ensures
        sum(gaps(times).take(k)) == times[k] - times[0],
    decreases k,
{
    if k > 0 {
        lemma_gaps_telescope(times, k - 1);
        lemma_take_step(gaps(times), k - 1);
    }
}

/// A number and its magnitude have the same square.
proof fn lemma_square_of_magnitude(value: int, magnitude: int)
    by (nonlinear_arith)
    requires
        magnitude == value || magnitude == -value,
    ensures
        magnitude * magnitude == value * value,
{
}

/// Scores the cadence of a sequence of key presses.
pub fn analyze_keystrokes(events: &[KeySample]) -> (verdict: SubScore)
    ensures
        verdict == keystroke_score(key_times(events@)),
{
    let n: usize = events.len();
    if n < 2 {
        return SubScore::Neutral;
    }
    let pairs: usize = n - 1;
    let ghost times = key_times(events@);
    let mut squares: U256 = U256::from_u128(0);
    let mut i: usize = 0;
    while i < pairs
        invariant
            0 <= i <= pairs,
            pairs == n - 1,
            n == events@.len(),
            times == key_times(events@),
            gaps(times).len() == pairs,
            squares@ == sum_sq(gaps(times).take(i as int)),
            squares@ <= i * max_square(),
        decreases pairs - i,
    {
        let gap: i128 = events[i + 1].time as i128 - events[i].time as i128;
        let width: u128 = if gap < 0 {
            (-gap) as u128
        } else {
            gap as u128
        };
        proof {
            lemma_take_step(gaps(times), i as int);
            lemma_half_product_bound(width as int, width as int);
            lemma_square_of_magnitude(gap as int, width as int);
            squares.lemma_range();
        }
        squares = squares.plus_u128(width * width);
        i = i + 1;
    }
    let total: i128 = events[pairs].time as i128 - events[0].time as i128;
    proof {
        lemma_gaps_telescope(times, pairs as int);
        assert(gaps(times).take(pairs as int) =~= gaps(times));
        lemma_mean_against_bound(gaps(times), MIN_MEAN_GAP as int);
        lemma_variance_against_bound(gaps(times), MIN_GAP_VARIANCE as int);
    }
    if total < (MIN_MEAN_GAP as i128) * (pairs as i128) {
        return SubScore::Bot;
    }
    let reach: u128 = if total < 0 {
        (-total) as u128
    } else {
        total as u128
    };
    proof {
        lemma_square_of_magnitude(total as int, reach as int);
    }
    if spread_below(pairs as u64, reach, squares, MIN_GAP_VARIANCE) {
        return SubScore::Bot;
    }
    SubScore::Human
}

} // verus!
