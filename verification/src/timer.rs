//! A repeating timer in whole milliseconds.

use vstd::prelude::*;

verus! {

/// A repeating timer: it counts elapsed milliseconds up to its duration, fires,
/// and starts over with what is left. The arithmetic of a tick is done by
/// `bevy::time::Timer`; this type holds the timer's state as plain numbers.
#[derive(Clone, Copy, Debug)]
pub struct Timer {
    duration_ms: u64,
    elapsed_ms: u64,
    times_finished_this_tick: u32,
}

/// One tick of a repeating `bevy::time::Timer` of `duration_ms`, unpaused, that
/// has run for `elapsed_ms`: the call is `Timer::tick`, after `Timer::new` and
/// `Timer::set_elapsed` have built the timer. Returned are `Timer::elapsed` in
/// milliseconds and `Timer::times_finished_this_tick`. The contract restates the
/// body of `tick` for a repeating timer: the elapsed time grows by `delta_ms`,
/// the timer fires once for every full duration in it, and keeps the remainder.
#[verifier::external_body]
fn tick_repeating(duration_ms: u64, elapsed_ms: u64, delta_ms: u32) -> (after: (u64, u32))
    requires
        duration_ms > 0,
        elapsed_ms < duration_ms,
    ensures
        after.0 == (elapsed_ms + delta_ms) % (duration_ms as int),
        after.1 == (elapsed_ms + delta_ms) / (duration_ms as int),
{
    let mut timer = bevy::time::Timer::new(
        std::time::Duration::from_millis(duration_ms),
        bevy::time::TimerMode::Repeating,
    );
    timer.set_elapsed(std::time::Duration::from_millis(elapsed_ms));
    timer.tick(std::time::Duration::from_millis(delta_ms as u64));
    (timer.elapsed().as_millis() as u64, timer.times_finished_this_tick())
}

impl Timer {
    #[verifier::type_invariant]
    spec fn inv(self) -> bool {
        self.duration_ms > 0 && self.elapsed_ms < self.duration_ms
    }

    /// The timer has a duration, and less than that has elapsed. Every timer
    /// that a program holds is like this.
    pub closed spec fn wf(self) -> bool {
        self.inv()
    }

    /// Milliseconds between two firings.
    pub closed spec fn duration(self) -> nat {
        self.duration_ms as nat
    }

    /// Milliseconds since the timer last fired; always less than the duration.
    pub closed spec fn elapsed(self) -> nat {
        self.elapsed_ms as nat
    }

    /// How often the timer fired during the latest tick.
    pub closed spec fn times_finished(self) -> nat {
        self.times_finished_this_tick as nat
    }

    /// Whether a tick of `delta_ms` makes this timer fire.
    pub open spec fn fires_after(self, delta_ms: int) -> bool {
        self.elapsed() + delta_ms >= self.duration()
    }

    /// `self` is what `before` becomes by one tick of `delta_ms`.
    pub open spec fn follows(self, before: Timer, delta_ms: int) -> bool {
        &&& self.duration() == before.duration()
        &&& self.elapsed() == (before.elapsed() + delta_ms) % (before.duration() as int)
        &&& self.times_finished() == (before.elapsed() + delta_ms) / (before.duration() as int)
    }

    /// The timer after one tick of `delta_ms`; see `follows`.
    pub closed spec fn ticked(self, delta_ms: int) -> Timer {
        Timer {
            duration_ms: self.duration_ms,
            elapsed_ms: ((self.elapsed_ms + delta_ms) % (self.duration_ms as int)) as u64,
            times_finished_this_tick: ((self.elapsed_ms + delta_ms) / (self.duration_ms as int)) as u32,
        }
    }

    /// A timer that fires every `duration_ms` milliseconds and has not run yet.
    pub fn from_millis(duration_ms: u64) -> (timer: Timer)
        requires
            duration_ms > 0,
        ensures
            timer.wf(),
            timer.duration() == duration_ms,
            timer.elapsed() == 0,
            timer.times_finished() == 0,
    {
        Timer { duration_ms, elapsed_ms: 0, times_finished_this_tick: 0 }
    }

    /// Advances the timer by `delta_ms` milliseconds.
    pub fn tick(&mut self, delta_ms: u32)
        ensures
            *final(self) == old(self).ticked(delta_ms as int),
            final(self).wf(),
            final(self).follows(*old(self), delta_ms as int),
            final(self).times_finished() > 0 <==> old(self).fires_after(delta_ms as int),
    {
        proof {
            use_type_invariant(&*self);
        }
        let after = tick_repeating(self.duration_ms, self.elapsed_ms, delta_ms);
        proof {
            let total = self.elapsed_ms + delta_ms;
            let d = self.duration_ms as int;
            assert(0 <= total % d < d);
            assert(total / d > 0 <==> total >= d) by (nonlinear_arith)
                requires
                    d > 0,
                    total >= 0,
            ;
            assert(total / d <= total) by (nonlinear_arith)
                requires
                    d > 0,
                    total >= 0,
            ;
        }
        self.elapsed_ms = after.0;
        self.times_finished_this_tick = after.1;
    }

    /// Whether the timer fired during the latest tick.
    pub fn finished(&self) -> (fired: bool)
        ensures
            fired == (self.times_finished() > 0),
    {
        self.times_finished_this_tick > 0
    }

    /// Whether the timer fired during the latest tick.
    pub fn just_finished(&self) -> (fired: bool)
        ensures
            fired == (self.times_finished() > 0),
    {
        self.times_finished_this_tick > 0
    }

    /// How often the timer fired during the latest tick.
    pub fn times_finished_this_tick(&self) -> (times: u32)
        ensures
            times == self.times_finished(),
    {
        self.times_finished_this_tick
    }

    /// Milliseconds since the timer last fired.
    pub fn elapsed_ms(&self) -> (elapsed: u64)
        ensures
            elapsed == self.elapsed(),
            elapsed < self.duration(),
    {
        proof {
            use_type_invariant(self);
        }
        self.elapsed_ms
    }

    /// Milliseconds between two firings.
    pub fn duration_ms(&self) -> (duration: u64)
        ensures
            duration == self.duration(),
            duration > 0,
    {
        proof {
            use_type_invariant(self);
        }
        self.duration_ms
    }
}

/// What a tick does to a timer: the duration stays, the elapsed time grows by
/// the tick and starts over at every full duration, and the timer has fired
/// once for every duration that was completed. It fired at all exactly if the
/// tick brought the elapsed time to the duration.
pub proof fn lemma_tick(timer: Timer, delta_ms: int)
    requires
        timer.wf(),
        0 <= delta_ms <= u32::MAX,
    ensures
        timer.ticked(delta_ms).wf(),
        timer.ticked(delta_ms).follows(timer, delta_ms),
        timer.ticked(delta_ms).elapsed() < timer.duration(),
        timer.ticked(delta_ms).times_finished() > 0 <==> timer.fires_after(delta_ms),
{
    let total = timer.elapsed_ms + delta_ms;
    let d = timer.duration_ms as int;
    assert(0 <= total % d < d);
    assert(0 <= total / d <= total) by (nonlinear_arith)
        requires
            d > 0,
            total >= 0,
    ;
    assert(total / d > 0 <==> total >= d) by (nonlinear_arith)
        requires
            d > 0,
            total >= 0,
    ;
    assert(total / d <= delta_ms) by (nonlinear_arith)
        requires
            d > 0,
            0 <= total < d + delta_ms,
            delta_ms >= 0,
    ;
}

} // verus!
