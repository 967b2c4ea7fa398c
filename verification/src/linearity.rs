//! Linearity analysis: a pointer path that hugs the straight line between
//! its two ends is taken for a generated one.
//!
//! The line through the first sample `(x1, y1)` and the last `(x2, y2)` is
//! `a*x + b*y + c = 0` with `a = y1 - y2`, `b = x2 - x1` and
//! `c = x1*y2 - x2*y1`. A point lies at the distance
//! `|a*x + b*y + c| / sqrt(a^2 + b^2)` from it. The numerator is called the
//! point's offset here and `a^2 + b^2` is the squared chord, so the mean
//! distance of `m` points is the sum of their offsets over `m` times the
//! length of the chord. The points that are averaged are the intermediate
//! samples: all but the first and the last, which lie on the line.

use vstd::prelude::*;
use crate::sample::{MouseSample, SubScore};
use crate::sqrt::integer_sqrt;
use crate::stats::{lemma_prefix_sum, lemma_take_step, sum};
use crate::wide::{U256, lemma_half_product_bound};

verus! {

/// Half a pixel, in coordinate units: a path whose mean distance from its
/// chord is below this counts as straight.
pub const HALF_PIXEL: u32 = 500;

/// A path of fewer samples than this has no shape to judge.
pub const MIN_PATH_SAMPLES: usize = 3;

/// The coefficient `a` of the line from `first` to `last`.
pub open spec fn line_a(first: MouseSample, last: MouseSample) -> int {
    first.y - last.y
}

/// The coefficient `b` of the line from `first` to `last`.
pub open spec fn line_b(first: MouseSample, last: MouseSample) -> int {
    last.x - first.x
}

/// The coefficient `c` of the line from `first` to `last`.
pub open spec fn line_c(first: MouseSample, last: MouseSample) -> int {
    first.x * last.y - last.x * first.y
}

/// The squared length of the chord from `first` to `last`.
pub open spec fn chord_sq(first: MouseSample, last: MouseSample) -> int {
    line_a(first, last) * line_a(first, last) + line_b(first, last) * line_b(first, last)
}

/// The distance of `point` from the line through `first` and `last`, times
/// the length of the chord between them.
pub open spec fn offset(first: MouseSample, last: MouseSample, point: MouseSample) -> int {
    let signed = line_a(first, last) * point.x + line_b(first, last) * point.y + line_c(
        first,
        last,
    );
    if signed < 0 {
        -signed
    } else {
        signed
    }
}

/// The number of intermediate samples of `trace`: all but its two ends.
pub open spec fn inner_len(trace: Seq<MouseSample>) -> int {
    if trace.len() < 2 {
        0
    } else {
        trace.len() - 2
    }
}

/// The offset of every intermediate sample of `trace` from the line through
/// its ends.
pub open spec fn offsets(trace: Seq<MouseSample>) -> Seq<int> {
    Seq::new(
        inner_len(trace) as nat,
        |i: int| offset(trace.first(), trace.last(), trace[i + 1]),
    )
}

/// The mean distance of the intermediate samples of `trace` from its chord
/// is below `HALF_PIXEL`. With `S` the sum of their offsets, `m` their
/// number and `Q` the squared chord, `S / (m * sqrt(Q)) < h` holds exactly
/// when `S^2 < (h * m)^2 * Q`, as `lemma_hugs_chord_is_mean_distance` shows.
pub open spec fn hugs_chord(trace: Seq<MouseSample>) -> bool {
    let total = sum(offsets(trace));
    let reach = HALF_PIXEL * inner_len(trace);
    total * total < reach * reach * chord_sq(trace.first(), trace.last())
}

/// The mean distance of the intermediate samples of `trace` from the line
/// through its ends, for the length `chord` of the chord between them.
pub open spec fn mean_distance(trace: Seq<MouseSample>, chord: real) -> real {
    (sum(offsets(trace)) as real / chord) / inner_len(trace) as real
}

/// What the shape of `trace` says: human if it is too short to judge;
/// generated if its ends coincide or the mean distance of its intermediate
/// samples from the chord is below `HALF_PIXEL`; human otherwise.
pub open spec fn linearity_score(trace: Seq<MouseSample>) -> SubScore {
    if trace.len() < MIN_PATH_SAMPLES {
        SubScore::Human
    } else if chord_sq(trace.first(), trace.last()) == 0 {
        SubScore::Bot
    } else if hugs_chord(trace) {
        SubScore::Bot
    } else {
        SubScore::Human
    }
}

/// The product of two bounded numbers is bounded by the product of the bounds.
proof fn lemma_product_bound(x: int, y: int, bound_x: int, bound_y: int)
    by (nonlinear_arith)
    requires
        -bound_x <= x <= bound_x,
        -bound_y <= y <= bound_y,
    ensures
        -(bound_x * bound_y) <= x * y <= bound_x * bound_y,
{
}

/// A sum of offsets of at least `reach * (root + 1)`, where `root + 1`
/// exceeds the length of the chord, is not below `reach` times that length.
proof fn lemma_beyond_reach(total: int, reach: int, root: int, chord: int)
    by (nonlinear_arith)
    requires
        0 <= reach,
        0 <= root,
        0 <= chord < (root + 1) * (root + 1),
        reach * (root + 1) <= total,
    ensures
        total * total >= reach * reach * chord,
{
    let limit: int = reach * (root + 1);
    assert(0 <= limit);
    assert(total * total >= limit * limit);
    assert(limit * limit == (reach * reach) * ((root + 1) * (root + 1)));
    assert((reach * reach) * ((root + 1) * (root + 1)) >= (reach * reach) * chord);
}

/// The root of a squared chord is below `2^33`.
proof fn lemma_chord_root_bound(root: int, chord: int)
    by (nonlinear_arith)
    requires
        0 <= root,
        root * root <= chord < 0x4_0000_0000_0000_0000int,
    ensures
        root < 0x2_0000_0000int,
{
}

/// The reach `(h * m)^2 * Q`, regrouped as the product of two numbers that
/// each fit in 128 bits.
proof fn lemma_reach_regroup(count: int, chord: int)
    by (nonlinear_arith)
    ensures
        (500 * count) * (500 * count) * chord == (count * count) * (250_000 * chord),
{
}

/// The offsets of a trace add up to a natural number.
pub proof fn lemma_offsets_sum_is_natural(trace: Seq<MouseSample>)
    ensures
        0 <= sum(offsets(trace)),
{
    lemma_prefix_sum(offsets(trace), 0);
}

/// A path with an intermediate sample hugs its chord exactly when the mean
/// distance of its intermediate samples from the chord is below
/// `HALF_PIXEL`, where `chord` is the length of the chord: the positive
/// number whose square is the squared chord.
pub proof fn lemma_hugs_chord_is_mean_distance(trace: Seq<MouseSample>, chord: real)
    requires
        trace.len() >= 3,
        chord > 0real,
        chord * chord == chord_sq(trace.first(), trace.last()) as real,
    ensures
        hugs_chord(trace) <==> mean_distance(trace, chord) < HALF_PIXEL as real,
{
    let total: int = sum(offsets(trace));
    let n: int = inner_len(trace);
    let squared: int = chord_sq(trace.first(), trace.last());
    let reach: int = HALF_PIXEL * inner_len(trace);
    lemma_offsets_sum_is_natural(trace);
    let s: real = total as real;
    let r: real = reach as real;
    let h: real = HALF_PIXEL as real;
    assert((total * total < reach * reach * squared) <==> (s * s < (r * chord) * (r * chord)))
        by (nonlinear_arith)
        requires
            s == total as real,
            r == reach as real,
            chord * chord == squared as real,
    ;
    assert((s * s < (r * chord) * (r * chord)) <==> (s < r * chord)) by (nonlinear_arith)
        requires
            s >= 0real,
            r > 0real,
            chord > 0real,
    ;
    assert(r == h * (n as real)) by (nonlinear_arith)
        requires
            r == reach as real,
            reach == 500 * n,
            h == 500real,
    ;
    assert((s < r * chord) <==> ((s / chord) / (n as real) < h)) by (nonlinear_arith)
        requires
            n > 0,
            chord > 0real,
            r == h * (n as real),
    ;
}

/// Scores the shape of a pointer path.
pub fn analyze_mouse_linearity(events: &[MouseSample]) -> (verdict: SubScore)
    ensures
        verdict == linearity_score(events@),
{
    let n: usize = events.len();
    if n < MIN_PATH_SAMPLES {
        return SubScore::Human;
    }
    let first: MouseSample = events[0];
    let last: MouseSample = events[n - 1];
    let a: i128 = first.y as i128 - last.y as i128;
    let b: i128 = last.x as i128 - first.x as i128;
    proof {
        lemma_product_bound(first.x as int, last.y as int, 0x8000_0000, 0x8000_0000);
        lemma_product_bound(last.x as int, first.y as int, 0x8000_0000, 0x8000_0000);
        lemma_product_bound(a as int, a as int, 0xffff_ffff, 0xffff_ffff);
        lemma_product_bound(b as int, b as int, 0xffff_ffff, 0xffff_ffff);
        assert(a * a >= 0) by (nonlinear_arith);
        assert(b * b >= 0) by (nonlinear_arith);
    }
    let c: i128 = (first.x as i128) * (last.y as i128) - (last.x as i128) * (first.y as i128);
    let chord: u128 = (a * a + b * b) as u128;
    if chord == 0 {
        return SubScore::Bot;
    }
    let root: u64 = integer_sqrt(chord);
    proof {
        lemma_chord_root_bound(root as int, chord as int);
        lemma_product_bound(
            500 * (n - 2),
            root + 1,
            500 * 0xffff_ffff_ffff_ffffint,
            0x2_0000_0000int,
        );
    }
    let inner: usize = n - 2;
    let limit: u128 = ((HALF_PIXEL as u128) * (inner as u128)) * (root as u128 + 1);
    proof {
        assert(0 < (500 * inner) * (root + 1)) by (nonlinear_arith)
            requires
                0 < inner,
                0 <= root,
        ;
    }
    let mut total: u128 = 0;
    let mut i: usize = 0;
    while i < inner
        invariant
            0 <= i <= inner,
            n == events@.len(),
            n >= 3,
            inner == n - 2,
            first == events@.first(),
            last == events@.last(),
            a == line_a(first, last),
            b == line_b(first, last),
            c == line_c(first, last),
            -0xffff_ffff <= a <= 0xffff_ffff,
            -0xffff_ffff <= b <= 0xffff_ffff,
            -0x8000_0000_0000_0000 <= c <= 0x8000_0000_0000_0000,
            chord == chord_sq(first, last),
            0 < chord < (root + 1) * (root + 1),
            limit == (500 * inner) * (root + 1),
            limit <= 500 * 0xffff_ffff_ffff_ffffint * 0x2_0000_0000int,
            total == sum(offsets(events@).take(i as int)),
            total < limit,
        decreases inner - i,
    {
        let point: MouseSample = events[i + 1];
        proof {
            lemma_product_bound(a as int, point.x as int, 0xffff_ffff, 0x8000_0000);
            lemma_product_bound(b as int, point.y as int, 0xffff_ffff, 0x8000_0000);
            lemma_take_step(offsets(events@), i as int);
        }
        let signed: i128 = a * (point.x as i128) + b * (point.y as i128) + c;
        let away: u128 = if signed < 0 {
            (-signed) as u128
        } else {
            signed as u128
        };
        total = total + away;
        i = i + 1;
        if total >= limit {
            proof {
                lemma_prefix_sum(offsets(events@), i as int);
                lemma_beyond_reach(
                    sum(offsets(events@)),
                    500 * inner,
                    root as int,
                    chord as int,
                );
            }
            return SubScore::Human;
        }
    }
    proof {
        assert(offsets(events@).take(inner as int) =~= offsets(events@));
        lemma_half_product_bound(inner as int, inner as int);
        lemma_reach_regroup(inner as int, chord as int);
    }
    let strayed: U256 = U256::product(total, total);
    let count_sq: u128 = (inner as u128) * (inner as u128);
    let half_sq: u128 = (HALF_PIXEL as u128) * (HALF_PIXEL as u128);
    let reach: U256 = U256::product(count_sq, half_sq * chord);
    if strayed.less_than(reach) {
        SubScore::Bot
    } else {
        SubScore::Human
    }
}

} // verus!
