//! The frame stepper: a repeating timer that moves a sprite's tile index
//! through a range of a sprite sheet, one tile for each interval that has
//! elapsed, wrapping from the last tile to the first.

use crate::timer::new_timer;
use crate::timer::tick_timer;
use crate::timer::timer_view;
use crate::timer::total;
use crate::timer::TimerView;
use bevy::time::Timer;
use vstd::arithmetic::div_mod::lemma_basic_div;
use vstd::arithmetic::div_mod::lemma_div_pos_is_pos;
use vstd::arithmetic::div_mod::lemma_fundamental_div_mod;
use vstd::arithmetic::div_mod::lemma_fundamental_div_mod_converse;
use vstd::arithmetic::div_mod::lemma_mod_add_multiples_vanish;
use vstd::arithmetic::div_mod::lemma_mod_bound;
use vstd::arithmetic::div_mod::lemma_small_mod;
use vstd::prelude::*;

verus! {

/// The tiles of a sprite sheet that an animation runs through, as indices
/// into the sheet's tiles counted row by row. Meant to hold `first <= last`.
#[derive(Clone, Copy, Debug, PartialEq, Eq, Structural)]
pub struct AnimationIndices {
    pub first: usize,
    pub last: usize,
}

impl AnimationIndices {
    /// The range is not empty.
    pub open spec fn wf(&self) -> bool {
        self.first <= self.last
    }

    /// `index` is one of the tiles of the range.
    pub open spec fn contains(&self, index: int) -> bool {
        self.first <= index <= self.last
    }

    /// The number of tiles in a well-formed range.
    pub open spec fn len(&self) -> int {
        self.last - self.first + 1
    }

    /// `index` can be stepped: all indices can, but for `usize::MAX` where
    /// that is not the range's last tile.
    pub open spec fn has_next(&self, index: usize) -> bool {
        index == self.last || index < usize::MAX
    }

    /// The tile shown after `index`: the first one after the last, else the
    /// one that follows.
    pub open spec fn spec_next(&self, index: int) -> int {
        if index == self.last {
            self.first as int
        } else {
            index + 1
        }
    }

    /// The tile shown `steps` steps after `index`.
    pub open spec fn advance(&self, index: int, steps: nat) -> int
        decreases steps,
    {
        if steps == 0 {
            index
        } else {
            self.spec_next(self.advance(index, (steps - 1) as nat))
        }
    }

    /// A range of the one tile `indice`.
    pub fn splat(indice: usize) -> (r: Self)
        ensures
            r == (AnimationIndices { first: indice, last: indice }),
            r.wf(),
    {
        AnimationIndices { first: indice, last: indice }
    }

    /// Steps `index` once.
    pub fn next(&self, index: usize) -> (r: usize)
        requires
            self.has_next(index),
        ensures
            r == self.spec_next(index as int),
            index == self.last ==> r == self.first,
            self.wf() && self.contains(index as int) ==> self.contains(r as int),
    {
        if index == self.last {
            self.first
        } else {
            index + 1
        }
    }

    /// Steps `index` `steps` times, or tells that no index is that far on:
    /// that happens only outside a well-formed range, where the steps count
    /// on without ever meeting the range's last tile.
    pub fn checked_advance(&self, index: usize, steps: u32) -> (r: Option<usize>)
        ensures
            match r {
                Some(stepped) => stepped == self.advance(index as int, steps as nat),
                None => self.advance(index as int, steps as nat) > usize::MAX,
            },
            self.wf() && self.contains(index as int) ==> r is Some && self.contains(
                r.unwrap() as int,
            ),
    {
        let steps = steps as usize;
        if index > self.last {
            proof {
                lemma_advance_above(*self, index as int, steps as nat);
            }
            index.checked_add(steps)
        } else if steps <= self.last - index {
            proof {
                lemma_advance_below(*self, index as int, steps as nat);
            }
            Some(index + steps)
        } else {
            let climb = self.last - index;
            let rest = steps - climb - 1;
            proof {
                lemma_advance_below(*self, index as int, climb as nat);
                lemma_advance_add(*self, index as int, (climb + 1) as nat, rest as nat);
                assert(self.advance(index as int, (climb + 1) as nat) == self.first);
            }
            if self.first > self.last {
                proof {
                    lemma_advance_above(*self, self.first as int, rest as nat);
                }
                self.first.checked_add(rest)
            } else {
                proof {
                    lemma_advance_wraps(*self, self.first as int, rest as nat);
                    lemma_mod_bound(rest as int, self.len());
                }
                let span = self.last - self.first;
                if span == usize::MAX {
                    proof {
                        lemma_small_mod(rest as nat, self.len() as nat);
                    }
                    Some(self.first + rest)
                } else {
                    Some(self.first + rest % (span + 1))
                }
            }
        }
    }
}

/// One step from the range's last tile leads to its first, and one step from
/// any other index to the index that follows.
pub proof fn lemma_advance_once(indices: AnimationIndices, index: int)
    ensures
        indices.advance(index, 1) == indices.spec_next(index),
        index == indices.last ==> indices.advance(index, 1) == indices.first,
{
    reveal_with_fuel(AnimationIndices::advance, 2);
}

/// Below the range's last tile the steps count up.
pub proof fn lemma_advance_below(indices: AnimationIndices, index: int, steps: nat)
    requires
        index + steps <= indices.last,
    ensures
        indices.advance(index, steps) == index + steps,
    decreases steps,
{
    if steps > 0 {
        lemma_advance_below(indices, index, (steps - 1) as nat);
    }
}

/// Above the range's last tile the steps count up and never come back.
pub proof fn lemma_advance_above(indices: AnimationIndices, index: int, steps: nat)
    requires
        index > indices.last,
    ensures
        indices.advance(index, steps) == index + steps,
    decreases steps,
{
    if steps > 0 {
        lemma_advance_above(indices, index, (steps - 1) as nat);
    }
}

/// Steps add up: `more` steps after `steps` steps are `steps + more` steps.
pub proof fn lemma_advance_add(indices: AnimationIndices, index: int, steps: nat, more: nat)
    ensures
        indices.advance(index, steps + more) == indices.advance(
            indices.advance(index, steps),
            more,
        ),
    decreases more,
{
    if more > 0 {
        lemma_advance_add(indices, index, steps, (more - 1) as nat);
    }
}

/// However many steps are taken from a tile of the range, the tile shown is
/// one of the range.
pub proof fn lemma_advance_stays(indices: AnimationIndices, index: int, steps: nat)
    requires
        indices.wf(),
        indices.contains(index),
    ensures
        indices.contains(indices.advance(index, steps)),
    decreases steps,
{
    if steps > 0 {
        lemma_advance_stays(indices, index, (steps - 1) as nat);
    }
}

/// Stepping goes round the range: after `steps` steps from a tile of the
/// range, the tile shown is as many places further on, counted round the
/// range.
pub proof fn lemma_advance_wraps(indices: AnimationIndices, index: int, steps: nat)
    requires
        indices.wf(),
        indices.contains(index),
    ensures
        indices.advance(index, steps) == indices.first + (index - indices.first + steps)
            % indices.len(),
    decreases steps,
{
    let len = indices.len();
    let offset = index - indices.first;
    if steps == 0 {
        lemma_small_mod(offset as nat, len as nat);
    } else {
        lemma_advance_wraps(indices, index, (steps - 1) as nat);
        let before = offset + steps - 1;
        lemma_fundamental_div_mod(before, len);
        lemma_mod_bound(before, len);
        let q = before / len;
        let r = before % len;
        if r == len - 1 {
            assert(before + 1 == (q + 1) * len + 0) by (nonlinear_arith)
                requires
                    before == len * q + r,
                    r == len - 1,
            ;
            lemma_fundamental_div_mod_converse(before + 1, len, q + 1, 0);
        } else {
            assert(before + 1 == q * len + (r + 1)) by (nonlinear_arith)
                requires
                    before == len * q + r,
            ;
            lemma_fundamental_div_mod_converse(before + 1, len, q, r + 1);
        }
    }
}

/// After as many steps as the range has tiles, the tile shown is the same
/// again.
pub proof fn lemma_advance_period(indices: AnimationIndices, index: int)
    requires
        indices.wf(),
        indices.contains(index),
    ensures
        indices.advance(index, indices.len() as nat) == index,
{
    let len = indices.len();
    let offset = index - indices.first;
    lemma_advance_wraps(indices, index, len as nat);
    lemma_mod_add_multiples_vanish(offset, len);
    lemma_small_mod(offset as nat, len as nat);
}

/// The repeating timer that paces an animation: for each interval that has
/// elapsed, the sprite steps to its next tile.
///
/// The timer inside is repeating and never paused, its interval fits in 64
/// bits of nanoseconds, and between ticks less than one interval has elapsed.
#[derive(Debug)]
pub struct AnimationTimer(Timer);

impl View for AnimationTimer {
    type V = TimerView;

    closed spec fn view(&self) -> TimerView {
        timer_view(self.0)
    }
}

impl TimerView {
    /// What holds of an [`AnimationTimer`] between calls.
    pub open spec fn paces(self) -> bool {
        &&& self.repeating
        &&& !self.paused
        &&& self.duration <= u64::MAX
        &&& if self.duration == 0 {
            self.elapsed == 0
        } else {
            self.elapsed < self.duration
        }
    }
}

impl AnimationTimer {
    /// The invariant of the timer inside. Every value that this module hands
    /// out meets it, and the field is private.
    pub open spec fn wf(&self) -> bool {
        self@.paces()
    }

    /// A timer that finishes every `interval` nanoseconds.
    pub fn from_nanos(interval: u64) -> (r: Self)
        ensures
            r.wf(),
            r@ == TimerView::fresh(interval as nat, true),
    {
        AnimationTimer(new_timer(interval, true))
    }

    /// Lets `delta` nanoseconds pass.
    pub fn tick(&mut self, delta: u64)
        requires
            old(self).wf(),
        ensures
            final(self).wf(),
            final(self)@ == old(self)@.tick(delta as nat),
    {
        proof {
            lemma_tick_paces(self@, delta as nat);
        }
        tick_timer(&mut self.0, delta);
    }

    /// Whether the last tick completed an interval.
    pub fn just_finished(&self) -> (r: bool)
        ensures
            r == self@.just_finished(),
    {
        self.0.just_finished()
    }

    /// How many intervals the last tick completed.
    pub fn times_finished_this_tick(&self) -> (r: u32)
        ensures
            r == self@.times_finished,
    {
        self.0.times_finished_this_tick()
    }
}

/// A pacing timer still paces after any tick.
pub proof fn lemma_tick_paces(timer: TimerView, delta: nat)
    requires
        timer.paces(),
    ensures
        timer.tick(delta).paces(),
        timer.tick(delta).duration == timer.duration,
{
    let total = timer.elapsed + delta;
    if total >= timer.duration && timer.duration != 0 {
        let d = timer.duration as int;
        assert(0 <= (total as int) % d < d) by (nonlinear_arith)
            requires
                d > 0,
        ;
    }
}

/// A pacing timer with an interval above zero, ticked by less than 2^32
/// intervals: it has just finished exactly when the time elapsed and the step
/// together reach the interval; it counts how often the interval fits into
/// them, and keeps the rest as elapsed time.
pub proof fn lemma_tick_completes(timer: TimerView, delta: nat)
    requires
        timer.paces(),
        timer.duration > 0,
        timer.elapsed + delta < 0x1_0000_0000 * timer.duration,
    ensures
        timer.tick(delta).just_finished() <==> timer.elapsed + delta >= timer.duration,
        timer.tick(delta).times_finished == (timer.elapsed + delta) / timer.duration,
        timer.tick(delta).elapsed == (timer.elapsed + delta) % timer.duration,
{
    let total = (timer.elapsed + delta) as int;
    let d = timer.duration as int;
    lemma_fundamental_div_mod(total, d);
    lemma_mod_bound(total, d);
    assert(0 <= total / d < 0x1_0000_0000) by (nonlinear_arith)
        requires
            0 <= total < 0x1_0000_0000 * d,
            d > 0,
            total == d * (total / d) + total % d,
            0 <= total % d < d,
    ;
    if total < d {
        lemma_small_mod(total as nat, d as nat);
        lemma_basic_div(total, d);
    } else {
        assert(total / d >= 1) by (nonlinear_arith)
            requires
                total >= d,
                d > 0,
                total == d * (total / d) + total % d,
                0 <= total % d < d,
        ;
    }
}

/// An animated sprite as the stepper sees it: the tile shown and the state
/// of the timer.
pub struct Animation {
    pub index: int,
    pub timer: TimerView,
}

impl Animation {
    /// The sprite after `delta` nanoseconds: the timer has ticked, and the
    /// tile has stepped once for each interval that the tick completed.
    pub open spec fn step(self, indices: AnimationIndices, delta: nat) -> Animation {
        let timer = self.timer.tick(delta);
        Animation { index: indices.advance(self.index, timer.times_finished), timer }
    }

    /// The sprite after one step for each of `deltas`, in order.
    pub open spec fn run(self, indices: AnimationIndices, deltas: Seq<nat>) -> Animation
        decreases deltas.len(),
    {
        if deltas.len() == 0 {
            self
        } else {
            self.run(indices, deltas.drop_last()).step(indices, deltas.last())
        }
    }
}

/// Whatever time passes in whatever steps, a sprite that shows a tile of its
/// range goes on showing tiles of its range.
pub proof fn lemma_run_stays(sprite: Animation, indices: AnimationIndices, deltas: Seq<nat>)
    requires
        indices.wf(),
        indices.contains(sprite.index),
    ensures
        indices.contains(sprite.run(indices, deltas).index),
    decreases deltas.len(),
{
    if deltas.len() > 0 {
        lemma_run_stays(sprite, indices, deltas.drop_last());
        let before = sprite.run(indices, deltas.drop_last());
        lemma_advance_stays(
            indices,
            before.index,
            before.timer.tick(deltas.last()).times_finished,
        );
    }
}

/// The sprite steps once for each interval that has passed, however the time
/// is cut into steps: after a run the tile shown is as many steps on as
/// intervals fit into the time since the timer started its current interval,
/// and the rest of that time is what has elapsed of the next. This holds as
/// long as no single step spans 2^32 intervals or more, beyond which the
/// timer's count is cut.
pub proof fn lemma_run_paced(sprite: Animation, indices: AnimationIndices, deltas: Seq<nat>)
    requires
        sprite.timer.paces(),
        sprite.timer.duration > 0,
        forall|i: int| 0 <= i < deltas.len() ==> deltas[i] <= 0xffff_ffff * sprite.timer.duration,
    ensures
        sprite.run(indices, deltas).timer.paces(),
        sprite.run(indices, deltas).timer.duration == sprite.timer.duration,
        sprite.run(indices, deltas).timer.elapsed == (sprite.timer.elapsed + total(deltas))
            % sprite.timer.duration,
        sprite.run(indices, deltas).index == indices.advance(
            sprite.index,
            ((sprite.timer.elapsed + total(deltas)) / sprite.timer.duration) as nat,
        ),
    decreases deltas.len(),
{
    let d = sprite.timer.duration as int;
    let start = sprite.timer.elapsed as int;
    if deltas.len() == 0 {
        lemma_small_mod(start as nat, d as nat);
        lemma_basic_div(start, d);
    } else {
        let earlier = deltas.drop_last();
        let delta = deltas.last() as int;
        lemma_run_paced(sprite, indices, earlier);
        let before = sprite.run(indices, earlier);
        let time = start + total(earlier);
        let q = time / d;
        let r = time % d;
        lemma_fundamental_div_mod(time, d);
        lemma_mod_bound(time, d);
        lemma_div_pos_is_pos(time, d);
        lemma_tick_paces(before.timer, delta as nat);
        assert(r + delta < 0x1_0000_0000 * d) by (nonlinear_arith)
            requires
                0 <= r < d,
                0 <= delta <= 0xffff_ffff * d,
        ;
        lemma_tick_completes(before.timer, delta as nat);
        let count = (r + delta) / d;
        let rest = (r + delta) % d;
        lemma_fundamental_div_mod(r + delta, d);
        lemma_mod_bound(r + delta, d);
        lemma_div_pos_is_pos(r + delta, d);
        assert(time + delta == (q + count) * d + rest) by (nonlinear_arith)
            requires
                time == d * q + r,
                r + delta == d * count + rest,
        ;
        lemma_fundamental_div_mod_converse(time + delta, d, q + count, rest);
        lemma_advance_add(indices, sprite.index, q as nat, count as nat);
    }
}

/// Animates one sprite: lets `delta` nanoseconds pass on its timer and steps
/// its tile index within `indices` once for each interval that this
/// completed. Every index stepped must have a successor, which is so of
/// every index of a well-formed range.
pub fn animate_sprite(
    indices: &AnimationIndices,
    timer: &mut AnimationTimer,
    index: &mut usize,
    delta: u64,
)
    requires
        old(timer).wf(),
        indices.advance(*old(index) as int, old(timer)@.tick(delta as nat).times_finished)
            <= usize::MAX,
    ensures
        final(timer).wf(),
        (Animation { index: *final(index) as int, timer: final(timer)@ }) == (Animation {
            index: *old(index) as int,
            timer: old(timer)@,
        }).step(*indices, delta as nat),
        indices.wf() && indices.contains(*old(index) as int) ==> indices.contains(
            *final(index) as int,
        ),
        final(timer)@.times_finished == 1 && *old(index) == indices.last ==> *final(index)
            == indices.first,
{
    proof {
        lemma_advance_once(*indices, *index as int);
    }
    timer.tick(delta);
    match indices.checked_advance(*index, timer.times_finished_this_tick()) {
        Some(stepped) => {
            *index = stepped;
        },
        None => {},
    }
}

/// Animates one sprite as [`animate_sprite`] does, where every index stepped
/// has a successor, and tells so. Where one has none, the timer has ticked,
/// the index is left alone, and the result is `false`.
pub fn try_animate_sprite(
    indices: &AnimationIndices,
    timer: &mut AnimationTimer,
    index: &mut usize,
    delta: u64,
) -> (stepped: bool)
    requires
        old(timer).wf(),
    ensures
        final(timer).wf(),
        final(timer)@ == old(timer)@.tick(delta as nat),
        stepped == (indices.advance(*old(index) as int, final(timer)@.times_finished)
            <= usize::MAX),
        stepped ==> *final(index) == indices.advance(
            *old(index) as int,
            final(timer)@.times_finished,
        ),
        !stepped ==> *final(index) == *old(index),
        indices.wf() && indices.contains(*old(index) as int) ==> stepped && indices.contains(
            *final(index) as int,
        ),
{
    timer.tick(delta);
    match indices.checked_advance(*index, timer.times_finished_this_tick()) {
        Some(next) => {
            *index = next;
            true
        },
        None => false,
    }
}

} // verus!
