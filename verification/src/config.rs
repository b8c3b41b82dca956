//! The tuning policy of a session and its validation.

use vstd::prelude::*;

verus! {

/// The denominator of `SessionConfig::correction_ticks_factor`.
pub const FACTOR_SCALE: u64 = 1000;

/// The knobs of prediction and correction, fixed for the life of a session.
#[derive(Clone, Copy, PartialEq, Eq, Structural, Debug)]
pub struct SessionConfig {
    /// By how many ticks a local input is delayed before it takes effect.
    pub input_delay_ticks: u16,
    /// The largest number of ticks that one rollback may replay.
    pub max_prediction_ticks: u16,
    /// How long a visual correction lasts, in thousandths of the number of
    /// ticks that the rollback replayed.
    pub correction_ticks_factor: i32,
    /// The number of actors that take part.
    pub player_count: u32,
    /// Identifies the protocol version; updates of another one are dropped.
    pub protocol_id: u64,
}

/// Why a session cannot be started.
#[derive(Clone, Copy, PartialEq, Eq, Structural, Debug)]
pub enum ConfigError {
    /// `max_prediction_ticks` is zero.
    NoPredictionWindow,
    /// `correction_ticks_factor` is negative.
    NegativeCorrectionFactor,
    /// A history holds fewer ticks than the rollback window.
    HistoryTooShort,
    /// The roster does not have `player_count` actors.
    RosterMismatch,
    /// An actor occurs twice in the roster.
    DuplicateActor,
    /// The local actor is not in the roster.
    UnknownLocalActor,
    /// The fixed step of a clock is zero.
    ZeroStep,
}

impl SessionConfig {
    /// The policy's own invariants.
    pub open spec fn valid(self) -> bool {
        &&& self.max_prediction_ticks >= 1
        &&& self.correction_ticks_factor >= 0
    }

    /// The number of ticks of history that rollback needs.
    pub open spec fn window(self) -> nat {
        (self.max_prediction_ticks + self.input_delay_ticks) as nat
    }

    /// The length of a visual correction after a rollback that replayed
    /// `depth` ticks: `depth` times the factor, rounded to the nearest tick,
    /// halves upwards.
    pub open spec fn correction_ticks_spec(self, depth: u32) -> nat {
        if self.correction_ticks_factor <= 0 {
            0
        } else {
            ((depth * self.correction_ticks_factor + FACTOR_SCALE / 2) / FACTOR_SCALE as int) as nat
        }
    }

    /// Checks the policy. The first rule that is broken, in the order of
    /// `ConfigError`'s variants, is reported.
    pub fn validate(&self) -> (r: Result<(), ConfigError>)
        ensures
            r is Ok <==> self.valid(),
            r == Err::<(), ConfigError>(ConfigError::NoPredictionWindow)
                <==> self.max_prediction_ticks == 0,
            r == Err::<(), ConfigError>(ConfigError::NegativeCorrectionFactor)
                <==> self.max_prediction_ticks >= 1 && self.correction_ticks_factor < 0,
    {
        if self.max_prediction_ticks == 0 {
            Err(ConfigError::NoPredictionWindow)
        } else if self.correction_ticks_factor < 0 {
            Err(ConfigError::NegativeCorrectionFactor)
        } else {
            Ok(())
        }
    }

    pub fn rollback_window(&self) -> (w: u32)
        ensures
            w == self.window(),
    {
        self.max_prediction_ticks as u32 + self.input_delay_ticks as u32
    }

    /// Whether a history of `history_len` ticks can serve every rollback that
    /// the policy allows.
    pub fn serves(&self, history_len: usize) -> (r: bool)
        ensures
            r == (history_len >= self.window()),
    {
        history_len as u64 >= self.rollback_window() as u64
    }

    /// The length of a correction fits a tick count.
    pub proof fn lemma_correction_ticks_fit(self, depth: u32)
        ensures
            self.correction_ticks_spec(depth) <= u64::MAX,
    {
        if self.correction_ticks_factor > 0 {
            let factor = self.correction_ticks_factor as int;
            assert(depth * factor <= 0xffff_ffff * 0x7fff_ffff) by (nonlinear_arith)
                requires
                    0 <= depth <= 0xffff_ffff,
                    0 <= factor <= 0x7fff_ffff,
            ;
        }
    }

    pub fn correction_ticks(&self, depth: u32) -> (ticks: u64)
        ensures
            ticks == self.correction_ticks_spec(depth),
    {
        if self.correction_ticks_factor <= 0 {
            0
        } else {
            let factor: u64 = self.correction_ticks_factor as u64;
            assert(depth * factor <= 0xffff_ffff * 0x7fff_ffff) by (nonlinear_arith)
                requires
                    0 <= depth <= 0xffff_ffff,
                    0 <= factor <= 0x7fff_ffff,
            ;
            let product: u64 = depth as u64 * factor;
            (product + FACTOR_SCALE / 2) / FACTOR_SCALE
        }
    }
}

} // verus!
