//! A rule-based scorer that tells human from automated pointer and keyboard
//! traces.
//!
//! A client records where the pointer went and when keys were pressed; the
//! scorer turns that trace into a humanness score between 0 and 100 and a
//! verdict. Three analyses feed the score: how closely the pointer path
//! hugs a straight line, how even the pointer's speed is, and how even and
//! how fast the typing is.
//!
//! All quantities are whole numbers: coordinates count thousandths of a
//! pixel, timestamps count microseconds, and scores count hundredths. Every
//! comparison with a threshold that is made here is decided exactly, for
//! every trace that the types can hold. The speed analysis is not made
//! here: the mean and the variance of speeds are sums of square roots, which
//! whole numbers cannot compare exactly with a bound. The caller makes it
//! and hands in its verdict.
//!
//! The thresholds are fixed and public. This is a reference heuristic, not a
//! defence against a client that sets out to imitate a human.

pub mod keystroke;
pub mod laws;
pub mod linearity;
pub mod sample;
pub mod scoring;
pub mod sqrt;
pub mod stats;
pub mod wide;

pub use crate::keystroke::analyze_keystrokes;
pub use crate::linearity::analyze_mouse_linearity;
pub use crate::sample::{KeySample, MouseSample, SubScore, VerificationInput};
pub use crate::scoring::{
    calculate_flat_score, calculate_score, score, score_with, Policy, ScoreResult,
};
