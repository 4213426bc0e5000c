//! The fade of the outline that confirms a selection.

use vstd::prelude::*;
use crate::fixed::within_limit;
use crate::fixed::LIMIT;
use crate::util::map_value_to_range;
use crate::util::mapped_to_range;
use crate::timer::Timer;

verus! {

/// Which way a fade runs.
#[derive(Clone, Copy, Debug, PartialEq, Eq, Structural)]
pub enum Fade {
    /// Toward transparent: the remaining time shrinks.
    Out,
    /// Toward opaque: the remaining time grows.
    In,
}

/// A finite blink: the opacity of what carries it falls to nothing and rises
/// again, `number_of_blinks` times, then the carrier is removed.
#[derive(Clone, Copy, Debug)]
pub struct Blinker {
    pub timer: Timer,
    pub speed: i64,
    pub duration: i64,
    pub number_of_blinks: usize,
    pub duration_const: i64,
    pub direction: Fade,
}

impl Blinker {
    /// Milliseconds between two steps of a fade.
    pub const STEP_MS: u64 = 10;

    /// The blinker is at full opacity and about to fade out, and its timer has
    /// not run yet.
    pub open spec fn starts_with(self, speed: i64, duration: i64, number_of_blinks: usize) -> bool {
        &&& self.speed == speed
        &&& self.duration == duration
        &&& self.number_of_blinks == number_of_blinks
        &&& self.duration_const == duration
        &&& self.direction == Fade::Out
        &&& self.timer.duration() == Blinker::STEP_MS
        &&& self.timer.elapsed() == 0
        &&& self.timer.times_finished() == 0
    }

    /// A blinker at full opacity that is about to fade out.
    pub fn new(speed: i64, duration: i64, number_of_blinks: usize) -> (blinker: Blinker)
        ensures
            blinker.starts_with(speed, duration, number_of_blinks),
    {
        Blinker {
            timer: Timer::from_millis(Blinker::STEP_MS),
            speed,
            duration,
            number_of_blinks,
            duration_const: duration,
            direction: Fade::Out,
        }
    }

    /// The speed and the length of a fade lie in `[-LIMIT, LIMIT]`, and the
    /// remaining time in four times that.
    pub open spec fn within_limit(self) -> bool {
        &&& within_limit(self.speed as int)
        &&& -4 * LIMIT <= self.duration <= 4 * LIMIT
        &&& within_limit(self.duration_const as int)
    }

    /// Whether the speed, the length of a fade and the remaining time are
    /// small enough to compute with.
    pub fn is_within_limit(&self) -> (within: bool)
        ensures
            within == self.within_limit(),
    {
        crate::fixed::is_within_limit(self.speed) && -4 * LIMIT <= self.duration && self.duration <= 4 * LIMIT
            && crate::fixed::is_within_limit(self.duration_const)
    }

    /// The opacity that the remaining time stands for, in thousandths: the
    /// remaining time as a share of the length of a fade, which is below zero
    /// or above one where the fade has run past its end.
    pub open spec fn opacity(self) -> int {
        mapped_to_range(self.duration as int, 0, self.duration_const as int, 0, 1000)
    }

    /// The opacity to show.
    pub fn alpha(&self) -> (alpha: i64)
        requires
            self.within_limit(),
        ensures
            alpha == self.opacity(),
    {
        proof {
            let scaled = self.duration * 1000;
            if self.duration_const != 0 {
                crate::fixed::lemma_quotient_magnitude(scaled, self.duration_const as int);
            }
        }
        map_value_to_range(self.duration, 0, self.duration_const, 0, 1000)
    }
}

} // verus!
