//! The visual correction that follows a rollback.
//!
//! A correction is what the presentation needs to blend the state it showed
//! before the rollback into the corrected one. It is an output only: nothing
//! in the simulation reads it.

use vstd::prelude::*;
use crate::entity::{EntityState, Tick};

verus! {

/// The progress of a finished correction, in thousandths.
pub const FULL_PROGRESS: u32 = 1000;

#[derive(Clone, Copy, PartialEq, Eq, Structural, Debug)]
pub struct Correction {
    /// The state that was shown when the rollback began.
    pub from: EntityState,
    /// The corrected state.
    pub to: EntityState,
    /// The tick at which the blend begins.
    pub start_tick: Tick,
    /// The number of ticks that the blend lasts.
    pub duration_ticks: u64,
}

impl Correction {
    /// How far the blend from `from` to `to` has come at `tick`, in
    /// thousandths: nothing before `start_tick`, all of it once
    /// `duration_ticks` have passed since, and in between the share of the
    /// duration that has passed, rounded down.
    pub open spec fn progress_spec(self, tick: Tick) -> nat {
        if tick < self.start_tick {
            0
        } else if tick - self.start_tick >= self.duration_ticks {
            FULL_PROGRESS as nat
        } else {
            (((tick - self.start_tick) * FULL_PROGRESS) / (self.duration_ticks as int)) as nat
        }
    }

    pub fn progress(&self, tick: Tick) -> (p: u32)
        ensures
            p == self.progress_spec(tick),
            p <= FULL_PROGRESS,
    {
        if tick < self.start_tick {
            0
        } else {
            let elapsed: u64 = tick - self.start_tick;
            if elapsed >= self.duration_ticks {
                FULL_PROGRESS
            } else {
                let scaled: u128 = elapsed as u128 * FULL_PROGRESS as u128;
                let share: u128 = scaled / self.duration_ticks as u128;
                assert(share < FULL_PROGRESS) by (nonlinear_arith)
                    requires
                        share == (elapsed * FULL_PROGRESS) / (self.duration_ticks as int),
                        0 <= elapsed < self.duration_ticks,
                        FULL_PROGRESS == 1000,
                ;
                share as u32
            }
        }
    }

    /// Whether the blend is over at `tick`.
    pub fn finished(&self, tick: Tick) -> (r: bool)
        ensures
            r == (self.progress_spec(tick) == FULL_PROGRESS),
    {
        self.progress(tick) == FULL_PROGRESS
    }
}

} // verus!
