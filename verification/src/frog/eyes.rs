//! The frog's eyes: open for a long while, shut for a moment, and so on.
//!
//! A one-shot timer runs for as long as the current state lasts. When it
//! expires the eyes change state, the sprite jumps to the first tile of the
//! new state, and the timer is armed again with the new state's duration.

use crate::animate::lemma_advance_stays;
use crate::animate::Animation;
use crate::animate::AnimationIndices;
use crate::frog::in_atlas;
use crate::timer::new_timer;
use crate::timer::set_timer_duration;
use crate::timer::tick_timer;
use crate::timer::timer_view;
use crate::timer::total;
use crate::timer::TimerView;
use bevy::time::Timer;
use vstd::prelude::*;

verus! {

/// Nanoseconds that the eyes stay open: five seconds.
pub const OPEN_DURATION: u64 = 5_000_000_000;

/// Nanoseconds that the eyes stay shut: the nanosecond nearest to 0.2 seconds
/// in single precision, which is how Bevy reads `0.2_f32` seconds.
pub const BLINK_DURATION: u64 = 200_000_003;

/// Whether the eyes are open or in the middle of a blink.
#[derive(Clone, Copy, Debug, PartialEq, Eq, Structural)]
pub enum FrogEyes {
    Open,
    Blinking,
}

impl Default for FrogEyes {
    /// The eyes start out open.
    fn default() -> (r: Self)
        ensures
            r == FrogEyes::Open,
    {
        FrogEyes::Open
    }
}

impl FrogEyes {
    /// The other state.
    pub open spec fn toggled(self) -> FrogEyes {
        match self {
            FrogEyes::Open => FrogEyes::Blinking,
            FrogEyes::Blinking => FrogEyes::Open,
        }
    }

    /// The tiles shown in this state: two tiles for the open eyes, the one
    /// tile after them for the shut eyes.
    pub open spec fn spec_indices(self) -> AnimationIndices {
        match self {
            FrogEyes::Open => AnimationIndices { first: 3, last: 4 },
            FrogEyes::Blinking => AnimationIndices { first: 5, last: 5 },
        }
    }

    /// The tiles shown in this state.
    #[verifier::when_used_as_spec(spec_indices)]
    pub fn indices(self) -> (r: AnimationIndices)
        ensures
            r == self.spec_indices(),
    {
        match self {
            FrogEyes::Open => AnimationIndices { first: 3, last: 4 },
            FrogEyes::Blinking => AnimationIndices::splat(5),
        }
    }

    /// Nanoseconds that this state lasts.
    pub open spec fn duration(self) -> nat {
        match self {
            FrogEyes::Open => OPEN_DURATION as nat,
            FrogEyes::Blinking => BLINK_DURATION as nat,
        }
    }
}

/// The one-shot timer that tells when the eyes change state.
///
/// The timer inside is one-shot and never paused, and runs for
/// [`OPEN_DURATION`] or [`BLINK_DURATION`].
#[derive(Debug)]
pub struct BlinkTimer(Timer);

impl View for BlinkTimer {
    type V = TimerView;

    closed spec fn view(&self) -> TimerView {
        timer_view(self.0)
    }
}

impl TimerView {
    /// What holds of a [`BlinkTimer`] between calls.
    pub open spec fn waits(self) -> bool {
        &&& !self.repeating
        &&& !self.paused
        &&& (self.duration == OPEN_DURATION || self.duration == BLINK_DURATION)
        &&& if self.finished {
            self.elapsed == self.duration
        } else {
            self.elapsed < self.duration
        }
    }
}

impl Default for BlinkTimer {
    /// A timer for the open eyes, not yet started.
    fn default() -> (r: Self)
        ensures
            r.wf(),
            r@ == TimerView::fresh(OPEN_DURATION as nat, false),
    {
        BlinkTimer(new_timer(OPEN_DURATION, false))
    }
}

impl BlinkTimer {
    /// The invariant of the timer inside. Every value that this module hands
    /// out meets it, and the field is private.
    pub open spec fn wf(&self) -> bool {
        self@.waits()
    }

    /// Lets `delta` nanoseconds pass. Once finished, the timer stays as it is
    /// until it is armed again.
    pub fn tick(&mut self, delta: u64)
        requires
            old(self).wf(),
        ensures
            final(self).wf(),
            final(self)@ == old(self)@.tick(delta as nat),
    {
        tick_timer(&mut self.0, delta);
    }

    /// Whether the current state's duration has elapsed.
    pub fn finished(&self) -> (r: bool)
        ensures
            r == self@.finished,
    {
        self.0.finished()
    }

    /// Arms the timer for the open eyes.
    pub fn set_open(&mut self)
        requires
            old(self).wf(),
        ensures
            final(self).wf(),
            final(self)@ == old(self)@.with_duration(OPEN_DURATION as nat).reset(),
    {
        set_timer_duration(&mut self.0, OPEN_DURATION);
        self.0.reset();
    }

    /// Arms the timer for a blink.
    pub fn set_blinking(&mut self)
        requires
            old(self).wf(),
        ensures
            final(self).wf(),
            final(self)@ == old(self)@.with_duration(BLINK_DURATION as nat).reset(),
    {
        set_timer_duration(&mut self.0, BLINK_DURATION);
        self.0.reset();
    }
}

/// The eyes' sprite as the blink machine sees it: the state of the eyes, the
/// tiles they run through, the tile shown, and the state of the timer.
pub struct Blink {
    pub eyes: FrogEyes,
    pub indices: AnimationIndices,
    pub index: int,
    pub timer: TimerView,
}

impl Blink {
    /// What holds of the machine between steps: the timer is running, not
    /// finished, for the duration of the current state, and the sprite shows
    /// one of the current state's tiles.
    pub open spec fn inv(self) -> bool {
        &&& self.timer.waits()
        &&& !self.timer.finished
        &&& self.timer.duration == self.eyes.duration()
        &&& self.indices == self.eyes.indices()
        &&& self.indices.contains(self.index)
    }

    /// Whether a step of `delta` nanoseconds changes the state of the eyes.
    pub open spec fn expires(self, delta: nat) -> bool {
        self.timer.tick(delta).finished
    }

    /// The machine after a step of `delta` nanoseconds. If the timer expires,
    /// the eyes change state, the sprite shows the first tile of the new
    /// state, and the timer starts again from zero with the new state's
    /// duration; else only the time moves on.
    pub open spec fn step(self, delta: nat) -> Blink {
        let ticked = self.timer.tick(delta);
        let eyes = self.eyes.toggled();
        if ticked.finished {
            Blink {
                eyes,
                indices: eyes.indices(),
                index: eyes.indices().first as int,
                timer: ticked.with_duration(eyes.duration()).reset(),
            }
        } else {
            Blink { timer: ticked, ..self }
        }
    }

    /// The machine after one step for each of `deltas`, in order.
    pub open spec fn run(self, deltas: Seq<nat>) -> Blink
        decreases deltas.len(),
    {
        if deltas.len() == 0 {
            self
        } else {
            self.run(deltas.drop_last()).step(deltas.last())
        }
    }
}

/// The two states alternate: the other state of the other state is the state
/// itself, and never the same as the other.
pub proof fn lemma_toggled_twice(eyes: FrogEyes)
    ensures
        eyes.toggled() != eyes,
        eyes.toggled().toggled() == eyes,
{
}

/// Both states show tiles of the frog's sprite sheet.
pub proof fn lemma_eyes_in_atlas(eyes: FrogEyes)
    ensures
        in_atlas(eyes.indices()),
{
}

/// The machine starts with open eyes on their first tile and a timer for
/// them that has not started, and that is a state in which the invariant
/// holds.
pub proof fn lemma_initial_inv()
    ensures
        (Blink {
            eyes: FrogEyes::Open,
            indices: FrogEyes::Open.indices(),
            index: FrogEyes::Open.indices().first as int,
            timer: TimerView::fresh(OPEN_DURATION as nat, false),
        }).inv(),
{
}

/// A step changes the state of the eyes exactly when the time elapsed in the
/// current state reaches the state's duration. Then the eyes are in the
/// other state, on its first tile, and the timer starts from zero with the
/// other state's duration. Before that the eyes stay as they are and `delta`
/// is added to the elapsed time. Either way the invariant holds again.
pub proof fn lemma_step(blink: Blink, delta: nat)
    requires
        blink.inv(),
    ensures
        blink.step(delta).inv(),
        blink.expires(delta) <==> blink.timer.elapsed + delta >= blink.eyes.duration(),
        blink.expires(delta) ==> {
            &&& blink.step(delta).eyes == blink.eyes.toggled()
            &&& blink.step(delta).index == blink.eyes.toggled().indices().first
            &&& blink.step(delta).timer.elapsed == 0
            &&& blink.step(delta).timer.duration == blink.eyes.toggled().duration()
        },
        !blink.expires(delta) ==> {
            &&& blink.step(delta).eyes == blink.eyes
            &&& blink.step(delta).index == blink.index
            &&& blink.step(delta).timer.elapsed == blink.timer.elapsed + delta
            &&& blink.step(delta).timer.duration == blink.eyes.duration()
        },
{
}

/// The frame stepper may step the eyes' sprite at any time: the invariant
/// holds after it, so the sprite shows a tile of the current state whichever
/// of the two moves it.
pub proof fn lemma_animate_keeps_inv(blink: Blink, frame_timer: TimerView, delta: nat)
    requires
        blink.inv(),
    ensures
        (Blink {
            index: (Animation { index: blink.index, timer: frame_timer }).step(
                blink.indices,
                delta,
            ).index,
            ..blink
        }).inv(),
{
    lemma_advance_stays(blink.indices, blink.index, frame_timer.tick(delta).times_finished);
}

/// However the time is cut into steps, the invariant holds after them: the
/// machine never leaves the cycle.
pub proof fn lemma_run_inv(blink: Blink, deltas: Seq<nat>)
    requires
        blink.inv(),
    ensures
        blink.run(deltas).inv(),
    decreases deltas.len(),
{
    if deltas.len() > 0 {
        lemma_run_inv(blink, deltas.drop_last());
        lemma_step(blink.run(deltas.drop_last()), deltas.last());
    }
}

/// As long as the steps add up to less than what is left of the current
/// state's duration, the eyes stay in that state and the elapsed time is the
/// sum of the steps.
pub proof fn lemma_run_dwells(blink: Blink, deltas: Seq<nat>)
    requires
        blink.inv(),
        blink.timer.elapsed + total(deltas) < blink.eyes.duration(),
    ensures
        blink.run(deltas).inv(),
        blink.run(deltas).eyes == blink.eyes,
        blink.run(deltas).index == blink.index,
        blink.run(deltas).timer.elapsed == blink.timer.elapsed + total(deltas),
    decreases deltas.len(),
{
    if deltas.len() > 0 {
        lemma_run_dwells(blink, deltas.drop_last());
        lemma_step(blink.run(deltas.drop_last()), deltas.last());
    }
}

/// The step with which the sum of the steps reaches what is left of the
/// current state's duration is the one that changes the state of the eyes, and
/// it starts the other state's full duration.
pub proof fn lemma_run_changes(blink: Blink, deltas: Seq<nat>, delta: nat)
    requires
        blink.inv(),
        blink.timer.elapsed + total(deltas) < blink.eyes.duration(),
        blink.timer.elapsed + total(deltas) + delta >= blink.eyes.duration(),
    ensures
        blink.run(deltas.push(delta)).inv(),
        blink.run(deltas.push(delta)).eyes == blink.eyes.toggled(),
        blink.run(deltas.push(delta)).index == blink.eyes.toggled().indices().first,
        blink.run(deltas.push(delta)).timer.elapsed == 0,
        blink.run(deltas.push(delta)).timer.duration == blink.eyes.toggled().duration(),
{
    lemma_run_dwells(blink, deltas);
    lemma_step(blink.run(deltas), delta);
    assert(deltas.push(delta).drop_last() == deltas);
}

/// Moves the eyes on by `delta` nanoseconds. When the timer expires, the eyes
/// change state, `indices` becomes the new state's tiles and `index` the
/// first of them, and the timer is armed for the new state; until then
/// nothing but the timer changes.
pub fn blink_frog(
    frog_eyes: &mut FrogEyes,
    indices: &mut AnimationIndices,
    index: &mut usize,
    blink_timer: &mut BlinkTimer,
    delta: u64,
)
    requires
        old(blink_timer).wf(),
    ensures
        final(blink_timer).wf(),
        (Blink {
            eyes: *final(frog_eyes),
            indices: *final(indices),
            index: *final(index) as int,
            timer: final(blink_timer)@,
        }) == (Blink {
            eyes: *old(frog_eyes),
            indices: *old(indices),
            index: *old(index) as int,
            timer: old(blink_timer)@,
        }).step(delta as nat),
        old(indices).wf() && old(indices).contains(*old(index) as int) ==> final(indices).wf()
            && final(indices).contains(*final(index) as int),
        in_atlas(*old(indices)) ==> in_atlas(*final(indices)),
{
    blink_timer.tick(delta);
    if blink_timer.finished() {
        match *frog_eyes {
            FrogEyes::Open => {
                *frog_eyes = FrogEyes::Blinking;
                *indices = FrogEyes::Blinking.indices();
                *index = 5;
                blink_timer.set_blinking();
            },
            FrogEyes::Blinking => {
                *frog_eyes = FrogEyes::Open;
                *indices = FrogEyes::Open.indices();
                *index = 3;
                blink_timer.set_open();
            },
        }
    }
}

} // verus!
