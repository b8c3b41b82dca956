//! The fixed-tick simulation clock.
//!
//! The caller measures wall-clock time and feeds it in; the clock turns it
//! into ticks, one per call, none skipped.

use vstd::prelude::*;
use crate::config::ConfigError;
use crate::entity::Tick;

verus! {

pub struct FixedTickClock {
    step_nanos: u64,
    accumulated_nanos: u64,
    next_tick: Tick,
}

impl FixedTickClock {
    /// The length of one fixed step, in nanoseconds. Never zero.
    pub closed spec fn step(&self) -> nat {
        self.step_nanos as nat
    }

    /// Wall-clock time that was fed in and not yet turned into ticks.
    pub closed spec fn accumulated(&self) -> nat {
        self.accumulated_nanos as nat
    }

    /// The tick that the next successful `advance` returns.
    pub closed spec fn upcoming(&self) -> nat {
        self.next_tick as nat
    }

    pub closed spec fn wf(&self) -> bool {
        self.step_nanos > 0
    }

    /// Whether a full step has accumulated and a tick number is left.
    pub open spec fn due(&self) -> bool {
        self.accumulated() >= self.step() && self.upcoming() < u64::MAX
    }

    /// A clock at tick 0 with nothing accumulated.
    pub fn new(step_nanos: u64) -> (r: Result<FixedTickClock, ConfigError>)
        ensures
            step_nanos == 0 <==> r == Err::<FixedTickClock, ConfigError>(ConfigError::ZeroStep),
            step_nanos > 0 ==> r is Ok && r->Ok_0.wf() && r->Ok_0.step() == step_nanos
                && r->Ok_0.accumulated() == 0 && r->Ok_0.upcoming() == 0,
    {
        if step_nanos == 0 {
            Err(ConfigError::ZeroStep)
        } else {
            Ok(FixedTickClock { step_nanos, accumulated_nanos: 0, next_tick: 0 })
        }
    }

    /// Feeds in wall-clock time that has passed. The sum stops at `u64::MAX`.
    pub fn add_elapsed(&mut self, elapsed_nanos: u64)
        requires
            old(self).wf(),
        ensures
            final(self).wf(),
            final(self).step() == old(self).step(),
            final(self).upcoming() == old(self).upcoming(),
            final(self).accumulated() == vstd::math::min(
                old(self).accumulated() + elapsed_nanos,
                u64::MAX as int,
            ),
    {
        self.accumulated_nanos = self.accumulated_nanos.saturating_add(elapsed_nanos);
    }

    /// Runs at most one fixed step: where a step is due, takes its time off
    /// the accumulated time and returns the tick, which is one more than the
    /// tick returned before. Otherwise nothing changes.
    pub fn advance(&mut self) -> (tick: Option<Tick>)
        requires
            old(self).wf(),
        ensures
            final(self).wf(),
            final(self).step() == old(self).step(),
            old(self).due() ==> tick == Some(old(self).upcoming() as Tick)
                && final(self).upcoming() == old(self).upcoming() + 1
                && final(self).accumulated() == old(self).accumulated() - old(self).step(),
            !old(self).due() ==> tick.is_none()
                && final(self).upcoming() == old(self).upcoming()
                && final(self).accumulated() == old(self).accumulated(),
    {
        if self.accumulated_nanos >= self.step_nanos && self.next_tick < u64::MAX {
            let tick: Tick = self.next_tick;
            self.accumulated_nanos = self.accumulated_nanos - self.step_nanos;
            self.next_tick = tick + 1;
            Some(tick)
        } else {
            None
        }
    }

    /// The tick that the next successful `advance` returns.
    pub fn peek(&self) -> (tick: Tick)
        ensures
            tick == self.upcoming(),
    {
        self.next_tick
    }
}

} // verus!
