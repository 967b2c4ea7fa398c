//! The humanness score of one verification attempt and the verdict on it.
//!
//! A score counts hundredths, from 0 (certainly generated) to 100 (certainly
//! human). Two aggregation policies exist and give different verdicts on the
//! same trace, so each call names one. [`score`] applies the weighted
//! policy, which is the one this library recommends; the flat policy is kept
//! as a coarse baseline that looks only at how much was recorded.
//!
//! The weighted policy combines three analyses. Two of them, of the shape of
//! the pointer path and of the cadence of the key presses, are made here. The
//! third, of the pointer's speed, compares the mean and the variance of
//! real-valued speeds with its thresholds; it is made by the caller, and its
//! verdict is an input of the functions below. The functions say what the
//! score is for each verdict that may be handed in.

use vstd::prelude::*;
use crate::keystroke::{analyze_keystrokes, keystroke_score};
use crate::linearity::{analyze_mouse_linearity, linearity_score};
use crate::sample::{MouseSample, SubScore, VerificationInput};

verus! {

/// The highest score, in hundredths.
pub const FULL_SCORE: u8 = 100;

/// More mouse samples than this are needed before the shape and the speed
/// of the path are analysed.
pub const ANALYSIS_SAMPLES: usize = 10;

/// With no key presses, fewer mouse samples than this are no evidence.
pub const EVIDENCE_SAMPLES: usize = 5;

/// The weight of the linearity analysis, in tenths.
pub const LINEARITY_WEIGHT: u8 = 4;

/// The weight of the speed analysis, in tenths.
pub const SPEED_WEIGHT: u8 = 2;

/// The weight of the keystroke analysis, in tenths.
pub const KEYSTROKE_WEIGHT: u8 = 4;

/// The credit, in hundredths, for a mouse trace too short to analyse.
pub const SPARSE_MOUSE_CREDIT: u8 = 10;

/// The bonus, in hundredths, for a session without key presses whose mouse
/// trace alone scores above `MOUSE_ONLY_FLOOR`.
pub const MOUSE_ONLY_BONUS: u8 = 20;

/// What a mouse trace must exceed, in hundredths, to earn `MOUSE_ONLY_BONUS`.
pub const MOUSE_ONLY_FLOOR: u8 = 50;

/// A weighted score must exceed this, in hundredths, to pass.
pub const WEIGHTED_THRESHOLD: u8 = 70;

/// A flat score must exceed this, in hundredths, to pass.
pub const FLAT_THRESHOLD: u8 = 50;

/// The flat credit, in hundredths, for more than `ANALYSIS_SAMPLES` mouse
/// samples.
pub const FLAT_VOLUME_CREDIT: u8 = 40;

/// The flat credit, in hundredths, for a mouse trace that lasts longer than
/// `FLAT_MIN_DURATION`.
pub const FLAT_DURATION_CREDIT: u8 = 20;

/// The flat credit, in hundredths, for more than `FLAT_MIN_KEYS` key presses.
pub const FLAT_KEYS_CREDIT: u8 = 20;

/// One second, in microseconds.
pub const FLAT_MIN_DURATION: i64 = 1_000_000;

/// More key presses than this earn `FLAT_KEYS_CREDIT`.
pub const FLAT_MIN_KEYS: usize = 2;

/// How sub-scores are combined into a score, and what score passes.
#[derive(Clone, Copy, Debug, PartialEq, Eq)]
pub enum Policy {
    /// Flat credits for the volume of the trace; passes above
    /// `FLAT_THRESHOLD`.
    Flat,
    /// Each analysis weighted by its category, with a bonus for strong
    /// mouse-only sessions; passes above `WEIGHTED_THRESHOLD`.
    Weighted,
}

/// The outcome of one verification attempt.
#[derive(Clone, Debug, PartialEq, Eq)]
pub struct ScoreResult {
    /// The humanness score in hundredths, at most `FULL_SCORE`.
    pub score: u8,
    /// Whether the score exceeds the policy's threshold.
    pub passed: bool,
    /// The verdict in words.
    pub message: String,
}

/// A score, capped at `FULL_SCORE`.
pub open spec fn capped(points: int) -> int {
    if points > FULL_SCORE {
        FULL_SCORE as int
    } else {
        points
    }
}

/// What the mouse trace contributes under the weighted policy: the weighted
/// linearity and speed sub-scores where there are more than
/// `ANALYSIS_SAMPLES` samples, `SPARSE_MOUSE_CREDIT` where there are fewer
/// but some, and nothing where there are none. `speed` is the verdict of the
/// speed analysis on the trace.
pub open spec fn weighted_mouse_points(mouse: Seq<MouseSample>, speed: SubScore) -> int {
    if mouse.len() > ANALYSIS_SAMPLES {
        LINEARITY_WEIGHT * linearity_score(mouse).spec_tenths() + SPEED_WEIGHT
            * speed.spec_tenths()
    } else if mouse.len() > 0 {
        SPARSE_MOUSE_CREDIT as int
    } else {
        0
    }
}

/// What the key presses add to `mouse_points` under the weighted policy: the
/// weighted keystroke sub-score where there are key presses; otherwise
/// `MOUSE_ONLY_BONUS` where the mouse trace exceeds `MOUSE_ONLY_FLOOR`, and
/// nothing where it does not.
pub open spec fn weighted_key_points(mouse_points: int, key_times: Seq<int>) -> int {
    if key_times.len() > 0 {
        KEYSTROKE_WEIGHT * keystroke_score(key_times).spec_tenths()
    } else if mouse_points > MOUSE_ONLY_FLOOR {
        MOUSE_ONLY_BONUS as int
    } else {
        0
    }
}

/// The score under the weighted policy, where `speed` is the verdict of the
/// speed analysis on the mouse trace.
pub open spec fn weighted_points(
    mouse: Seq<MouseSample>,
    key_times: Seq<int>,
    speed: SubScore,
) -> int {
    if mouse.len() < EVIDENCE_SAMPLES && key_times.len() == 0 {
        0
    } else {
        let mouse_points = weighted_mouse_points(mouse, speed);
        capped(mouse_points + weighted_key_points(mouse_points, key_times))
    }
}

/// The time from the first mouse sample to the last, in microseconds.
pub open spec fn duration(mouse: Seq<MouseSample>) -> int {
    if mouse.len() == 0 {
        0
    } else {
        mouse.last().time - mouse.first().time
    }
}

/// The score under the flat policy.
pub open spec fn flat_points(mouse: Seq<MouseSample>, key_times: Seq<int>) -> int {
    if mouse.len() == 0 && key_times.len() == 0 {
        0
    } else {
        let volume = if mouse.len() > ANALYSIS_SAMPLES {
            FLAT_VOLUME_CREDIT as int
        } else {
            0
        };
        let lasting = if duration(mouse) > FLAT_MIN_DURATION {
            FLAT_DURATION_CREDIT as int
        } else {
            0
        };
        let typing = if key_times.len() > FLAT_MIN_KEYS {
            FLAT_KEYS_CREDIT as int
        } else {
            0
        };
        capped(volume + lasting + typing)
    }
}

impl Policy {
    /// The score of a trace under this policy, where `speed` is the verdict
    /// of the speed analysis on the mouse trace. The flat policy does not
    /// look at it.
    pub open spec fn points(
        self,
        mouse: Seq<MouseSample>,
        key_times: Seq<int>,
        speed: SubScore,
    ) -> int {
        match self {
            Policy::Flat => flat_points(mouse, key_times),
            Policy::Weighted => weighted_points(mouse, key_times, speed),
        }
    }

    /// The score that a passing trace must exceed.
    pub open spec fn spec_threshold(self) -> int {
        match self {
            Policy::Flat => FLAT_THRESHOLD as int,
            Policy::Weighted => WEIGHTED_THRESHOLD as int,
        }
    }

    /// The verdict in words.
    pub open spec fn spec_message(self, passed: bool) -> Seq<char> {
        match self {
            Policy::Flat => if passed {
                "Verification successful. Welcome, human."@
            } else {
                "Verification failed. Bot behavior detected."@
            },
            Policy::Weighted => if passed {
                "Verification successful. Human behavior pattern confirmed."@
            } else {
                "Verification failed. Automated behavior pattern detected."@
            },
        }
    }

    /// The whole outcome for a trace under this policy, where `speed` is the
    /// verdict of the speed analysis on the mouse trace.
    pub open spec fn judges(
        self,
        mouse: Seq<MouseSample>,
        key_times: Seq<int>,
        speed: SubScore,
        outcome: ScoreResult,
    ) -> bool {
        &&& outcome.score == self.points(mouse, key_times, speed)
        &&& outcome.passed == (outcome.score > self.spec_threshold())
        &&& outcome.message@ == self.spec_message(outcome.passed)
    }

    /// The score that a passing trace must exceed.
    pub fn threshold(self) -> (limit: u8)
        ensures
            limit == self.spec_threshold(),
    {
        match self {
            Policy::Flat => FLAT_THRESHOLD,
            Policy::Weighted => WEIGHTED_THRESHOLD,
        }
    }

    /// The verdict in words.
    pub fn message(self, passed: bool) -> (text: String)
        ensures
            text@ == self.spec_message(passed),
    {
        match self {
            Policy::Flat => if passed {
                "Verification successful. Welcome, human.".to_owned()
            } else {
                "Verification failed. Bot behavior detected.".to_owned()
            },
            Policy::Weighted => if passed {
                "Verification successful. Human behavior pattern confirmed.".to_owned()
            } else {
                "Verification failed. Automated behavior pattern detected.".to_owned()
            },
        }
    }
}

/// The score of `data` under the weighted policy, in hundredths, where
/// `speed` is the verdict of the speed analysis on the mouse trace.
pub fn calculate_score(data: &VerificationInput, speed: SubScore) -> (points: u8)
    ensures
        points == weighted_points(data.mouse@, data.key_times(), speed),
        points <= FULL_SCORE,
{
    let mut points: u8 = 0;
    if data.mouse.len() < EVIDENCE_SAMPLES && data.keys.len() == 0 {
        return 0;
    }
    if data.mouse.len() > ANALYSIS_SAMPLES {
        let linearity: SubScore = analyze_mouse_linearity(data.mouse.as_slice());
        points = points + LINEARITY_WEIGHT * linearity.tenths();
        points = points + SPEED_WEIGHT * speed.tenths();
    } else if data.mouse.len() > 0 {
        points = points + SPARSE_MOUSE_CREDIT;
    }
    if data.keys.len() > 0 {
        let keystrokes: SubScore = analyze_keystrokes(data.keys.as_slice());
        points = points + KEYSTROKE_WEIGHT * keystrokes.tenths();
    } else if points > MOUSE_ONLY_FLOOR {
        points = points + MOUSE_ONLY_BONUS;
    }
    if points > FULL_SCORE {
        points = FULL_SCORE;
    }
    points
}

/// The score of `data` under the flat policy, in hundredths.
pub fn calculate_flat_score(data: &VerificationInput) -> (points: u8)
    ensures
        points == flat_points(data.mouse@, data.key_times()),
        points <= FULL_SCORE,
{
    if data.mouse.len() == 0 && data.keys.len() == 0 {
        return 0;
    }
    let mut points: u8 = 0;
    if data.mouse.len() > 0 {
        if data.mouse.len() > ANALYSIS_SAMPLES {
            points = points + FLAT_VOLUME_CREDIT;
        }
        let start: i64 = data.mouse[0].time;
        let end: i64 = data.mouse[data.mouse.len() - 1].time;
        if end as i128 - start as i128 > FLAT_MIN_DURATION as i128 {
            points = points + FLAT_DURATION_CREDIT;
        }
    }
    if data.keys.len() > FLAT_MIN_KEYS {
        points = points + FLAT_KEYS_CREDIT;
    }
    if points > FULL_SCORE {
        points = FULL_SCORE;
    }
    points
}

/// Scores `input` under `policy` and says whether it passes, where `speed`
/// is the verdict of the speed analysis on the mouse trace.
pub fn score_with(policy: Policy, input: &VerificationInput, speed: SubScore) -> (outcome:
    ScoreResult)
    ensures
        policy.judges(input.mouse@, input.key_times(), speed, outcome),
        outcome.score <= FULL_SCORE,
{
    let points: u8 = match policy {
        Policy::Flat => calculate_flat_score(input),
        Policy::Weighted => calculate_score(input, speed),
    };
    let passed: bool = points > policy.threshold();
    ScoreResult { score: points, passed, message: policy.message(passed) }
}

/// Scores `input` under the weighted policy and says whether it passes,
/// where `speed` is the verdict of the speed analysis on the mouse trace.
pub fn score(input: &VerificationInput, speed: SubScore) -> (outcome: ScoreResult)
    ensures
        Policy::Weighted.judges(input.mouse@, input.key_times(), speed, outcome),
        outcome.score <= FULL_SCORE,
{
    score_with(Policy::Weighted, input, speed)
}

} // verus!
