//! The boundary to Bevy's `Timer`.
//!
//! A `Timer` is opaque to the verifier. Its observable state is named by the
//! six `timer_*` functions below, one per getter of `Timer`, and collected in a
//! [`TimerView`]. The contracts in this file are taken on trust from the source
//! of `bevy_time`; everything else in the crate is proved from them.

use bevy::time::Timer;
use bevy::time::TimerMode;
use std::time::Duration;
use vstd::prelude::*;

verus! {

/// Bevy's `Timer`, of which the verifier sees nothing but the names below.
#[verifier::external_type_specification]
#[verifier::external_body]
pub struct ExTimer(Timer);

/// The nanoseconds in what `Timer::elapsed` returns.
pub uninterp spec fn timer_elapsed(timer: Timer) -> nat;

/// The nanoseconds in what `Timer::duration` returns.
pub uninterp spec fn timer_duration(timer: Timer) -> nat;

/// Whether `Timer::mode` returns `TimerMode::Repeating` (otherwise it is
/// `TimerMode::Once`).
pub uninterp spec fn timer_repeating(timer: Timer) -> bool;

/// What `Timer::finished` returns.
pub uninterp spec fn timer_finished(timer: Timer) -> bool;

/// What `Timer::times_finished_this_tick` returns.
pub uninterp spec fn timer_times_finished(timer: Timer) -> nat;

/// What `Timer::paused` returns.
pub uninterp spec fn timer_paused(timer: Timer) -> bool;

/// The observable state of a `Timer`, times in nanoseconds.
pub struct TimerView {
    pub elapsed: nat,
    pub duration: nat,
    pub repeating: bool,
    pub finished: bool,
    pub times_finished: nat,
    pub paused: bool,
}

/// The state of `timer`, read through its getters.
pub open spec fn timer_view(timer: Timer) -> TimerView {
    TimerView {
        elapsed: timer_elapsed(timer),
        duration: timer_duration(timer),
        repeating: timer_repeating(timer),
        finished: timer_finished(timer),
        times_finished: timer_times_finished(timer),
        paused: timer_paused(timer),
    }
}

/// The nanoseconds in `Duration::MAX`: `u64::MAX` seconds and 999 999 999
/// nanoseconds. Adding two durations beyond it panics.
pub open spec fn max_nanos() -> nat {
    18_446_744_073_709_551_615_999_999_999
}

impl TimerView {
    /// A timer as `Timer::new` makes it.
    pub open spec fn fresh(duration: nat, repeating: bool) -> TimerView {
        TimerView {
            elapsed: 0,
            duration,
            repeating,
            finished: false,
            times_finished: 0,
            paused: false,
        }
    }

    /// Whether the last tick reached the duration at least once.
    pub open spec fn just_finished(self) -> bool {
        self.times_finished > 0
    }

    /// Whether a tick by `delta` adds to the elapsed time at all. A paused
    /// timer does not, nor does a one-shot timer that has finished.
    pub open spec fn runs(self) -> bool {
        !self.paused && (self.repeating || !self.finished)
    }

    /// The state after `Timer::tick` with `delta` nanoseconds.
    ///
    /// A one-shot timer stops at its duration. A repeating timer wraps
    /// around: it keeps the remainder and counts how often the duration
    /// fitted; Bevy cuts the remainder to 64 bits and the count to 32 bits. A
    /// repeating timer of duration zero counts `u32::MAX`.
    pub open spec fn tick(self, delta: nat) -> TimerView {
        let total = self.elapsed + delta;
        if self.paused {
            TimerView { finished: self.finished && !self.repeating, times_finished: 0, ..self }
        } else if !self.repeating && self.finished {
            TimerView { times_finished: 0, ..self }
        } else if total < self.duration {
            TimerView { elapsed: total, finished: false, times_finished: 0, ..self }
        } else if !self.repeating {
            TimerView { elapsed: self.duration, finished: true, times_finished: 1, ..self }
        } else if self.duration == 0 {
            TimerView { elapsed: 0, finished: true, times_finished: 0xffff_ffff, ..self }
        } else {
            TimerView {
                elapsed: ((total % self.duration) % 0x1_0000_0000_0000_0000) as nat,
                finished: true,
                times_finished: ((total / self.duration) % 0x1_0000_0000) as nat,
                ..self
            }
        }
    }

    /// The state after `Timer::set_duration`.
    pub open spec fn with_duration(self, duration: nat) -> TimerView {
        TimerView { duration, ..self }
    }

    /// The state after `Timer::reset`.
    pub open spec fn reset(self) -> TimerView {
        TimerView { elapsed: 0, finished: false, times_finished: 0, ..self }
    }
}

/// The sum of `deltas`: the time that passes in a run of ticks.
pub open spec fn total(deltas: Seq<nat>) -> nat
    decreases deltas.len(),
{
    if deltas.len() == 0 {
        0
    } else {
        total(deltas.drop_last()) + deltas.last()
    }
}

/// Bevy's `Timer::new`, with the duration given in nanoseconds and the mode
/// as a flag. The timer has the duration and the mode given; no time has
/// elapsed, and it is neither finished nor paused.
#[verifier::external_body]
pub(crate) fn new_timer(duration: u64, repeating: bool) -> (timer: Timer)
    ensures
        timer_elapsed(timer) == 0,
        timer_duration(timer) == duration,
        timer_repeating(timer) == repeating,
        !timer_finished(timer),
        timer_times_finished(timer) == 0,
        !timer_paused(timer),
{
    let mode = if repeating { TimerMode::Repeating } else { TimerMode::Once };
    Timer::new(Duration::from_nanos(duration), mode)
}

/// Bevy's `Timer::tick`, with the step given in nanoseconds. The state after
/// it is [`TimerView::tick`] of the state before. Where the timer runs, Bevy
/// adds the step to the elapsed time, which panics beyond `Duration::MAX`:
/// such a step is left out.
#[verifier::external_body]
pub(crate) fn tick_timer(timer: &mut Timer, delta: u64)
    requires
        timer_view(*old(timer)).runs() ==> timer_elapsed(*old(timer)) + delta <= max_nanos(),
    ensures
        timer_view(*final(timer)) == timer_view(*old(timer)).tick(delta as nat),
{
    timer.tick(Duration::from_nanos(delta));
}

/// Bevy's `Timer::set_duration`, with the duration given in nanoseconds.
/// The timer has the new duration, and nothing else changes: not the elapsed
/// time, and not whether the timer is finished.
#[verifier::external_body]
pub(crate) fn set_timer_duration(timer: &mut Timer, duration: u64)
    ensures
        timer_view(*final(timer)) == timer_view(*old(timer)).with_duration(duration as nat),
{
    timer.set_duration(Duration::from_nanos(duration));
}

/// `Timer::reset` sets the elapsed time to zero and clears `finished` and the
/// count of the last tick; duration, mode and pause stay.
pub assume_specification[ Timer::reset ](timer: &mut Timer)
    ensures
        timer_view(*final(timer)) == timer_view(*old(timer)).reset(),
;

/// `Timer::finished` returns the `finished` flag.
pub assume_specification[ Timer::finished ](timer: &Timer) -> (r: bool)
    ensures
        r == timer_finished(*timer),
;

/// `Timer::times_finished_this_tick` returns the count of the last tick.
pub assume_specification[ Timer::times_finished_this_tick ](timer: &Timer) -> (r: u32)
    ensures
        r == timer_times_finished(*timer),
;

/// `Timer::just_finished` tells whether the count of the last tick is not zero.
pub assume_specification[ Timer::just_finished ](timer: &Timer) -> (r: bool)
    ensures
        r == (timer_times_finished(*timer) > 0),
;

} // verus!
