//! The frog: a body, eyes and a mouth, each an animated sprite cut from one
//! sprite sheet.

pub mod eyes;

use crate::animate::AnimationIndices;
use crate::animate::AnimationTimer;
use crate::timer::TimerView;
use vstd::prelude::*;

verus! {

/// Columns of tiles in the frog's sprite sheet.
pub const ATLAS_COLUMNS: usize = 4;

/// Rows of tiles in the frog's sprite sheet.
pub const ATLAS_ROWS: usize = 4;

/// Nanoseconds between two frames of an animation: the nanosecond nearest to
/// 0.2 seconds in single precision, which is how Bevy reads `0.2_f32` seconds.
pub const FRAME_DURATION: u64 = 200_000_003;

/// The tiles of the body: the first three of the sheet's first row.
pub open spec fn body_indices() -> AnimationIndices {
    AnimationIndices { first: 0, last: 2 }
}

/// The tiles of the mouth: the first three of the sheet's last row.
pub open spec fn mouth_indices() -> AnimationIndices {
    AnimationIndices { first: 12, last: 14 }
}

/// What one animated part of the frog is spawned with.
#[derive(Debug)]
pub struct Child {
    /// The tile that the sprite shows.
    pub index: usize,
    pub indices: AnimationIndices,
    pub timer: AnimationTimer,
}

impl Child {
    /// The part as it is spawned for `indices`: it shows the first tile, and
    /// its timer has not started.
    pub open spec fn spawned(&self, indices: AnimationIndices) -> bool {
        &&& self.index == indices.first
        &&& self.indices == indices
        &&& self.timer.wf()
        &&& self.timer@ == TimerView::fresh(FRAME_DURATION as nat, true)
    }
}

/// The three animated parts of the frog, and the state of its eyes.
#[derive(Debug)]
pub struct FrogChildren {
    pub body: Child,
    pub eyes: Child,
    pub eyes_state: eyes::FrogEyes,
    pub mouth: Child,
}

/// `indices` is a well-formed range of tiles of the frog's sprite sheet.
pub open spec fn in_atlas(indices: AnimationIndices) -> bool {
    indices.wf() && indices.last < ATLAS_COLUMNS * ATLAS_ROWS
}

/// One animated part that runs through `indices`, starting at the first
/// tile, with a fresh frame timer.
pub fn create_child(indices: AnimationIndices) -> (child: Child)
    ensures
        child.spawned(indices),
{
    Child { index: indices.first, indices, timer: AnimationTimer::from_nanos(FRAME_DURATION) }
}

/// The frog as it is spawned: body, open eyes and mouth, each on its own
/// tiles of the sprite sheet.
pub fn spawn_frog() -> (frog: FrogChildren)
    ensures
        frog.body.spawned(body_indices()),
        frog.eyes.spawned(eyes::FrogEyes::Open.indices()),
        frog.eyes_state == eyes::FrogEyes::Open,
        frog.mouth.spawned(mouth_indices()),
        in_atlas(frog.body.indices),
        in_atlas(frog.eyes.indices),
        in_atlas(frog.mouth.indices),
{
    FrogChildren {
        body: create_child(AnimationIndices { first: 0, last: 2 }),
        eyes: create_child(eyes::FrogEyes::Open.indices()),
        eyes_state: eyes::FrogEyes::Open,
        mouth: create_child(AnimationIndices { first: 12, last: 14 }),
    }
}

} // verus!
