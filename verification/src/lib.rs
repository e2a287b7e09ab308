//! Sprite-sheet animation for a small frog: a frame stepper driven by a
//! repeating timer, and a two-state blink machine driven by a one-shot timer.

pub mod animate;
pub mod frog;
pub mod timer;
