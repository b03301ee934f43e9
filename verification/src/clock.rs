//! The fixed-timestep driver.
//!
//! Wall-clock frame deltas are accumulated; each whole tick duration in the
//! accumulator is converted into one fixed-size simulation step. A slow
//! frame therefore yields several catch-up steps rather than one long,
//! non-reproducible step. No cap is placed on the catch-up count: if a step
//! costs more than its duration the loop falls behind, which the owning
//! application must guard against.

use vstd::prelude::*;

verus! {

/// The fixed simulation step, in milliseconds.
pub const TICK_MS: u64 = 16;

/// Converts variable frame deltas into whole simulation steps.
pub struct SimulationClock {
    /// Time carried over from past frames, strictly below `tick_ms` between
    /// calls.
    pub accumulator: u64,
    /// The fixed step duration, in milliseconds; always positive.
    pub tick_ms: u64,
}

impl SimulationClock {
    /// A positive step duration with the accumulator below it.
    pub open spec fn wf(self) -> bool {
        0 < self.tick_ms && self.accumulator < self.tick_ms
    }

    /// A fresh clock stepping at the fixed tick duration.
    pub fn new() -> (c: SimulationClock)
        ensures
            c.wf(),
            c.tick_ms == TICK_MS,
            c.accumulator == 0,
    {
        SimulationClock { accumulator: 0, tick_ms: TICK_MS }
    }

    /// Account one frame's elapsed wall-clock time and say how many fixed
    /// steps the simulation owes: every whole step duration now in the
    /// accumulator yields one step, and exactly the remainder is carried.
    pub fn advance(&mut self, elapsed_ms: u64) -> (ticks: u64)
        requires
            old(self).wf(),
            elapsed_ms <= u64::MAX - old(self).tick_ms,
        ensures
            final(self).wf(),
            final(self).tick_ms == old(self).tick_ms,
            ticks == (old(self).accumulator + elapsed_ms) as int / old(self).tick_ms as int,
            final(self).accumulator == (old(self).accumulator + elapsed_ms) as int % old(
                self,
            ).tick_ms as int,
            ticks * old(self).tick_ms + final(self).accumulator == old(self).accumulator
                + elapsed_ms,
    {
        let total = self.accumulator + elapsed_ms;
        let ticks = total / self.tick_ms;
        self.accumulator = total % self.tick_ms;
        proof {
            vstd::arithmetic::div_mod::lemma_fundamental_div_mod(
                total as int,
                self.tick_ms as int,
            );
        }
        ticks
    }
}

} // verus!
