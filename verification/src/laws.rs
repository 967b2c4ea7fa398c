//! What holds of every trace: the facts a caller may rely on without
//! knowing how a score is computed.

use vstd::prelude::*;
use crate::keystroke::{MIN_MEAN_GAP, gaps, keystroke_score, lemma_gaps_telescope};
use crate::linearity::{chord_sq, hugs_chord, inner_len, linearity_score, offset, offsets};
use crate::sample::{MouseSample, SubScore, VerificationInput};
use crate::scoring::{
    FULL_SCORE,
    KEYSTROKE_WEIGHT,
    Policy,
    ScoreResult,
    WEIGHTED_THRESHOLD,
    weighted_mouse_points,
    weighted_points,
};
use crate::stats::{
    lemma_constant_has_no_variance,
    lemma_constant_sums,
    lemma_mean_against_bound,
    sum,
};

verus! {

/// Every sample of `trace` lies exactly on the line through its ends.
pub open spec fn collinear(trace: Seq<MouseSample>) -> bool {
    forall|i: int|
        0 <= i < trace.len() ==> #[trigger] offset(trace.first(), trace.last(), trace[i]) == 0
}

/// Every key press at `times` follows the one before it after `gap`
/// microseconds.
pub open spec fn even_cadence(times: Seq<int>, gap: int) -> bool {
    forall|i: int| 0 <= i < times.len() - 1 ==> times[i + 1] - #[trigger] times[i] == gap
}

/// A score is never below 0 nor above `FULL_SCORE`, whatever the trace, the
/// verdict of the speed analysis and the policy.
pub proof fn lemma_score_in_range(
    policy: Policy,
    mouse: Seq<MouseSample>,
    key_times: Seq<int>,
    speed: SubScore,
)
    ensures
        0 <= policy.points(mouse, key_times, speed) <= FULL_SCORE,
{
}

/// A trace with no mouse sample and no key press scores 0 and fails, under
/// either policy and whatever the verdict of the speed analysis.
pub proof fn lemma_no_evidence_fails(
    policy: Policy,
    mouse: Seq<MouseSample>,
    key_times: Seq<int>,
    speed: SubScore,
    outcome: ScoreResult,
)
    requires
        mouse.len() == 0,
        key_times.len() == 0,
        policy.judges(mouse, key_times, speed, outcome),
    ensures
        outcome.score == 0,
        !outcome.passed,
{
}

/// A path of three or more samples that all lie on the line through its ends
/// is scored as generated by the linearity analysis.
pub proof fn lemma_collinear_is_bot(trace: Seq<MouseSample>)
    requires
        trace.len() >= 3,
        collinear(trace),
    ensures
        linearity_score(trace) == SubScore::Bot,
{
    let chord: int = chord_sq(trace.first(), trace.last());
    let n: int = inner_len(trace);
    assert forall|i: int| 0 <= i < offsets(trace).len() implies offsets(trace)[i] == 0 by {
        assert(offset(trace.first(), trace.last(), trace[i + 1]) == 0);
    }
    lemma_constant_sums(offsets(trace), 0);
    assert(sum(offsets(trace)) == 0) by (nonlinear_arith)
        requires
            sum(offsets(trace)) == offsets(trace).len() * 0,
    ;
    assert(chord >= 0) by (nonlinear_arith)
        requires
            chord == chord_sq(trace.first(), trace.last()),
    ;
    if chord > 0 {
        assert(0 * 0 < (500 * n) * (500 * n) * chord) by (nonlinear_arith)
            requires
                n >= 1,
                chord > 0,
        ;
        assert(hugs_chord(trace));
    }
}

/// A mouse trace of eleven or more samples that runs along a straight line
/// and that the speed analysis takes for generated earns nothing from
/// either mouse analysis: the weighted score is what the key presses alone
/// contribute, and it does not pass.
pub proof fn lemma_straight_path_at_generated_speed_fails(mouse: Seq<MouseSample>, key_times: Seq<int>)
    requires
        mouse.len() >= 11,
        collinear(mouse),
    ensures
        linearity_score(mouse) == SubScore::Bot,
        weighted_mouse_points(mouse, SubScore::Bot) == 0,
        weighted_points(mouse, key_times, SubScore::Bot) == if key_times.len() > 0 {
            KEYSTROKE_WEIGHT * keystroke_score(key_times).spec_tenths()
        } else {
            0
        },
        weighted_points(mouse, key_times, SubScore::Bot) <= WEIGHTED_THRESHOLD,
{
    lemma_collinear_is_bot(mouse);
}

/// A path of three or more samples that ends where it began is scored as
/// generated by the linearity analysis, whatever lies in between and
/// whatever its timestamps.
pub proof fn lemma_closed_path_is_bot(trace: Seq<MouseSample>)
    requires
        trace.len() >= 3,
        trace.first().x == trace.last().x,
        trace.first().y == trace.last().y,
    ensures
        linearity_score(trace) == SubScore::Bot,
{
}

/// Two or more key presses that follow one another at one fixed gap are
/// scored as generated, whatever the gap: at 10 ms as at 200 ms.
pub proof fn lemma_even_cadence_is_bot(times: Seq<int>, gap: int)
    requires
        times.len() >= 2,
        even_cadence(times, gap),
    ensures
        keystroke_score(times) == SubScore::Bot,
{
    assert forall|i: int| 0 <= i < gaps(times).len() implies gaps(times)[i] == gap by {
        assert(times[i + 1] - times[i] == gap);
    }
    lemma_constant_has_no_variance(gaps(times), gap);
}

/// Two or more key presses whose mean gap is below `MIN_MEAN_GAP` are scored
/// as generated. The gaps add up to the time from the first press to the
/// last, so only those two instants and the number of presses matter.
pub proof fn lemma_fast_typing_is_bot(times: Seq<int>)
    requires
        times.len() >= 2,
        times.last() - times.first() < MIN_MEAN_GAP * (times.len() - 1),
    ensures
        keystroke_score(times) == SubScore::Bot,
{
    let pairs: int = times.len() - 1;
    lemma_gaps_telescope(times, pairs);
    assert(gaps(times).take(pairs) =~= gaps(times));
    lemma_mean_against_bound(gaps(times), MIN_MEAN_GAP as int);
}

/// A single key press is no evidence either way.
pub proof fn lemma_single_key_is_neutral(times: Seq<int>)
    requires
        times.len() == 1,
    ensures
        keystroke_score(times) == SubScore::Neutral,
{
}

/// The outcome depends on nothing but the mouse samples, the instants of the
/// key presses and the verdict of the speed analysis: two attempts that
/// agree on those get the same score, the same verdict and the same message,
/// whichever keys were pressed and whatever the clients call themselves.
pub proof fn lemma_outcome_is_determined(
    policy: Policy,
    a: VerificationInput,
    b: VerificationInput,
    speed: SubScore,
    outcome_a: ScoreResult,
    outcome_b: ScoreResult,
)
    requires
        a.mouse@ == b.mouse@,
        a.key_times() == b.key_times(),
        policy.judges(a.mouse@, a.key_times(), speed, outcome_a),
        policy.judges(b.mouse@, b.key_times(), speed, outcome_b),
    ensures
        outcome_a.score == outcome_b.score,
        outcome_a.passed == outcome_b.passed,
        outcome_a.message@ == outcome_b.message@,
{
}

} // verus!
