//! The 60 Hz clock that drives the two timers, decoupled from how fast
//! instructions execute: the host reports elapsed time, the clock gathers it
//! and says how many ticks are due.

use vstd::prelude::*;
use crate::machine::Chip8;
use crate::state::spec_tick;

verus! {

/// The length of one tick of the 60 Hz clock, in microseconds.
pub const TICK_MICROS: u32 = 16_667;

/// The ticks that are due once `micros` more microseconds have passed with
/// `pending` microseconds gathered before.
pub open spec fn spec_ticks_due(pending: nat, micros: nat) -> nat {
    (pending + micros) / 16_667
}

/// The microseconds that stay gathered after those ticks.
pub open spec fn spec_pending_after(pending: nat, micros: nat) -> nat {
    (pending + micros) % 16_667
}

/// Gathers elapsed time until a tick's worth has passed.
#[derive(Clone, Copy, Debug)]
pub struct TimerClock {
    gathered: u32,
}

impl TimerClock {
    /// The microseconds gathered since the last tick.
    pub closed spec fn pending(&self) -> nat {
        self.gathered as nat
    }

    /// A clock with nothing gathered.
    pub fn new() -> (clock: TimerClock)
        ensures
            clock.pending() == 0,
    {
        TimerClock { gathered: 0 }
    }

    /// The microseconds gathered since the last tick.
    pub fn pending_micros(&self) -> (micros: u32)
        ensures
            micros == self.pending(),
    {
        self.gathered
    }

    /// Adds `micros` microseconds of elapsed time and returns the ticks
    /// that are now due; what is left over stays gathered for the next call.
    pub fn advance(&mut self, micros: u32) -> (ticks: u32)
        ensures
            ticks == spec_ticks_due(old(self).pending(), micros as nat),
            final(self).pending() == spec_pending_after(old(self).pending(), micros as nat),
    {
        let total: u64 = self.gathered as u64 + micros as u64;
        let ticks: u64 = total / (TICK_MICROS as u64);
        self.gathered = (total % (TICK_MICROS as u64)) as u32;
        ticks as u32
    }
}

impl Chip8 {
    /// Lets `micros` microseconds pass on `clock` and counts both timers
    /// down by the ticks that became due. Nothing else changes.
    pub fn run_timers(&mut self, clock: &mut TimerClock, micros: u32)
        requires
            old(self).wf(),
        ensures
            final(self).wf(),
            final(self)@ == spec_tick(
                old(self)@,
                spec_ticks_due(old(clock).pending(), micros as nat),
            ),
            final(clock).pending() == spec_pending_after(old(clock).pending(), micros as nat),
    {
        let ticks = clock.advance(micros);
        self.tick(ticks);
    }
}

} // verus!
