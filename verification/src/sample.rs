//! The interaction trace of one verification attempt.
//!
//! All quantities are whole numbers in fixed-point units: a coordinate counts
//! thousandths of a pixel and a timestamp counts microseconds, so that a
//! pixel is `UNITS_PER_PIXEL` units and a millisecond is
//! `TICKS_PER_MILLISECOND` ticks.

use vstd::prelude::*;

verus! {

/// Coordinate units in one pixel.
pub const UNITS_PER_PIXEL: i32 = 1000;

/// Timestamp ticks in one millisecond.
pub const TICKS_PER_MILLISECOND: i64 = 1000;

/// Where the pointer was at one instant.
#[derive(Clone, Copy, Debug, PartialEq, Eq)]
pub struct MouseSample {
    /// Horizontal position, in thousandths of a pixel.
    pub x: i32,
    /// Vertical position, in thousandths of a pixel.
    pub y: i32,
    /// When the position was taken, in microseconds.
    pub time: i64,
}

/// One key press.
#[derive(Clone, Debug, PartialEq, Eq)]
pub struct KeySample {
    /// Which key it was. No analysis reads it.
    pub key: String,
    /// When the key went down, in microseconds.
    pub time: i64,
}

/// Everything a client submits for one attempt. The order of each sequence
/// is the order in which the samples were taken; either may be empty.
#[derive(Clone, Debug, PartialEq, Eq)]
pub struct VerificationInput {
    pub mouse: Vec<MouseSample>,
    pub keys: Vec<KeySample>,
    /// What the client says it is, if it says anything. No analysis reads it.
    pub client: Option<String>,
}

/// The instants of a sequence of key presses.
pub open spec fn key_times(keys: Seq<KeySample>) -> Seq<int> {
    Seq::new(keys.len(), |i: int| keys[i].time as int)
}

impl MouseSample {
    pub fn new(x: i32, y: i32, time: i64) -> (sample: MouseSample)
        ensures
            sample == (MouseSample { x, y, time }),
    {
        MouseSample { x, y, time }
    }
}

impl KeySample {
    pub fn new(key: String, time: i64) -> (sample: KeySample)
        ensures
            sample == (KeySample { key, time }),
    {
        KeySample { key, time }
    }
}

impl VerificationInput {
    pub fn new(mouse: Vec<MouseSample>, keys: Vec<KeySample>, client: Option<String>) -> (input:
        VerificationInput)
        ensures
            input == (VerificationInput { mouse, keys, client }),
    {
        VerificationInput { mouse, keys, client }
    }

    /// The instants of the key presses, in order.
    pub open spec fn key_times(&self) -> Seq<int> {
        key_times(self.keys@)
    }
}

/// What one analysis concludes from its part of the trace.
#[derive(Clone, Copy, Debug, PartialEq, Eq)]
pub enum SubScore {
    /// The trace looks generated: no credit.
    Bot,
    /// Too little evidence either way: half credit.
    Neutral,
    /// The trace looks human: full credit.
    Human,
}

impl SubScore {
    /// The credit in tenths: 0, 5 or 10.
    pub open spec fn spec_tenths(self) -> int {
        match self {
            SubScore::Bot => 0,
            SubScore::Neutral => 5,
            SubScore::Human => 10,
        }
    }

    /// The credit in tenths: 0, 5 or 10.
    pub fn tenths(self) -> (credit: u8)
        ensures
            credit == self.spec_tenths(),
    {
        match self {
            SubScore::Bot => 0,
            SubScore::Neutral => 5,
            SubScore::Human => 10,
        }
    }
}

} // verus!
