//! The frame clock value handed to the core by the driver loop.
//!
//! The driver owns the real clock; the core only ever reads a snapshot of it:
//! the timestamp at which the current frame started and how much simulation
//! time elapsed since the previous frame, both in microseconds.

use vstd::prelude::*;

verus! {

/// Number of microseconds in one second, the fixed-point time scale.
pub const MICROS_PER_SECOND: u64 = 1_000_000;

/// Snapshot of the frame clock for one frame.
///
/// `frame_start_us` is a monotonically increasing timestamp (microseconds)
/// usable for duration arithmetic; `elapsed_us` is the simulation time
/// (microseconds) that passed since the previous frame started.
#[derive(Clone, Copy, Debug, PartialEq, Eq, Structural)]
pub struct GameTime {
    pub frame_start_us: u64,
    pub elapsed_us: u64,
}

impl GameTime {
    pub fn new(frame_start_us: u64, elapsed_us: u64) -> (t: GameTime)
        ensures
            t == (GameTime { frame_start_us, elapsed_us }),
    {
        GameTime { frame_start_us, elapsed_us }
    }

    /// Timestamp at which the current frame started, in microseconds.
    pub fn frame_start_time(&self) -> (r: u64)
        ensures
            r == self.frame_start_us,
    {
        self.frame_start_us
    }

    /// Simulation time elapsed since the previous frame, in microseconds.
    pub fn elapsed_micros(&self) -> (r: u64)
        ensures
            r == self.elapsed_us,
    {
        self.elapsed_us
    }
}

} // verus!
