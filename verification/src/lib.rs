//! Falling streams of glyphs for a text terminal: the stream model, the
//! generator of fresh streams, and the per-frame rules of the animation.
//!
//! Positions are fixed-point integers. One character cell is `glyph::CELL`
//! position units wide and high, time is counted in ticks of `1 / FPS`
//! second, and a speed is a number of position units per tick.

use vstd::prelude::*;

pub mod event;
pub mod glyph;
pub mod matrix;
pub mod random;

pub use matrix::Matrix;

verus! {

/// Ticks per second: the fixed frame rate.
pub const FPS: u32 = 90;

/// Length of one tick in nanoseconds, rounded down: what the ticker sleeps
/// between two `Redraw` events.
pub fn tick_nanos() -> (nanos: u64)
    ensures
        nanos == 1_000_000_000u64 / (FPS as u64),
{
    1_000_000_000u64 / (FPS as u64)
}

} // verus!
