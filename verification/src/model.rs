//! The rollback engine as a mathematical state machine.
//!
//! `SessionView` is what a session is, to a contract; its spec functions say
//! what each call of the engine does to it and what the call answers. The
//! engine never simulates: it says which tick to simulate, from which state
//! and with which inputs, and is told the result.

use vstd::prelude::*;
use crate::action::ActionEventData;
use crate::channel::RemoteUpdate;
use crate::config::SessionConfig;
use crate::correction::Correction;
use crate::entity::{ActorId, EntityId, EntityState, Tick};
use crate::frames::{kept_from, kept_with_last, FrameKey, Frames, InputFrame};
use crate::input_buffer::{best_input, eviction_cutoff, samples_from, PredictedInput};
use crate::snapshot::saved;

verus! {

/// Where the engine stands.
#[derive(Clone, Copy, PartialEq, Eq, Structural, Debug)]
pub enum Phase {
    /// Nothing is pending: the next tick can begin.
    Idle,
    /// A new tick was begun and its simulated state is awaited.
    Stepping,
    /// An update contradicted what `target` or a later tick was simulated
    /// with; `target` is the earliest such tick.
    RollbackPending { target: Tick },
    /// The ticks from `from` on are replayed, and the state of `tick` is
    /// awaited.
    Resimulating { from: Tick, tick: Tick },
}

/// Why a rollback was dropped.
#[derive(Clone, Copy, PartialEq, Eq, Structural, Debug)]
pub enum DesyncReason {
    /// The state to replay from is no longer in the history.
    SnapshotEvicted,
    /// More ticks would have to be replayed than the policy allows.
    ExceedsPredictionWindow,
}

/// A tick to simulate, and the state to simulate it from.
#[derive(Clone, Copy, PartialEq, Eq, Structural, Debug)]
pub struct StepRequest {
    pub tick: Tick,
    pub state: EntityState,
}

/// What the engine answers to a call that drives the simulation.
#[derive(Clone, Copy, PartialEq, Eq, Structural, Debug)]
pub enum Directive {
    /// Simulate the tick and report the resulting state.
    Simulate(StepRequest),
    /// The tick is done and nothing is pending.
    Settled,
    /// A rollback is done: blend the display as the correction says.
    Corrected(Correction),
    /// A rollback was dropped; the simulation goes on from where it stands.
    Desync(DesyncReason),
    /// The call does not fit the phase; nothing has changed.
    Refused,
}

/// What the engine answers to a remote update.
#[derive(Clone, Copy, PartialEq, Eq, Structural, Debug)]
pub enum ReceiveOutcome {
    /// The update was taken and contradicts nothing that was simulated.
    Confirmed,
    /// The update was taken and a rollback to `target` is pending.
    RollbackScheduled { target: Tick },
    /// The update speaks of a tick whose state is no longer in the history.
    Desync(DesyncReason),
    /// The update is of an unknown actor, or reports a state for a tick that
    /// was not simulated yet; nothing has changed.
    Ignored,
    /// A step is awaited; nothing has changed, deliver the update later.
    Deferred,
}

/// The inputs to simulate `tick` with, one per actor, in the roster's order.
pub open spec fn step_inputs(confirmed: Frames, actors: Seq<ActorId>, tick: Tick) -> Seq<
    PredictedInput,
> {
    Seq::new(actors.len(), |i: int| best_input(confirmed, actors[i], tick))
}

/// The frames to simulate `tick` with: the inputs of `step_inputs`, without
/// the mark that tells a prediction from a confirmation.
pub open spec fn step_frames(confirmed: Frames, actors: Seq<ActorId>, tick: Tick) -> Seq<
    InputFrame,
> {
    Seq::new(actors.len(), |i: int| best_input(confirmed, actors[i], tick).frame)
}

/// Whether `tick` is simulated with a prediction for some actor, so that a
/// confirmation may still correct it.
pub open spec fn awaits_confirmation(confirmed: Frames, actors: Seq<ActorId>, tick: Tick) -> bool {
    exists|i: int| 0 <= i < actors.len() && #[trigger] step_inputs(confirmed, actors, tick)[i].predicted
}

/// The record of what was used, after `tick` was simulated with the best
/// inputs that `confirmed` gives for it.
pub open spec fn recorded_use(
    used: Frames,
    confirmed: Frames,
    actors: Seq<ActorId>,
    tick: Tick,
) -> Frames {
    Map::new(
        |k: FrameKey| used.contains_key(k) || (k.1 == tick && actors.contains(k.0)),
        |k: FrameKey|
            if k.1 == tick && actors.contains(k.0) {
                best_input(confirmed, k.0, tick).frame.action_vector
            } else {
                used[k]
            },
    )
}

/// The earlier of the pending rollback's target, if one is pending, and `tick`.
pub open spec fn earliest_target(phase: Phase, tick: Tick) -> Tick {
    match phase {
        Phase::RollbackPending { target } => if target <= tick {
            target
        } else {
            tick
        },
        _ => tick,
    }
}

/// Whether a confirmed action vector contradicts what its tick was simulated
/// with: nothing is on record for it, or what is on record is not close to it.
pub open spec fn contradicts(
    used: Frames,
    actor: ActorId,
    tick: Tick,
    action_vector: ActionEventData,
    tolerance: u32,
) -> bool {
    !(used.contains_key((actor, tick)) && used[(actor, tick)].close_to(action_vector, tolerance))
}

/// That every sample was taken at a tick before `bound`.
pub open spec fn sampled_below(recorded: Map<Tick, ActionEventData>, bound: int) -> bool {
    forall|t: Tick| #[trigger] recorded.contains_key(t) ==> t < bound
}

pub struct SessionView {
    pub config: SessionConfig,
    /// How far apart two quantities may lie and still count as the same.
    pub tolerance: u32,
    /// The number of ticks that the snapshot history holds.
    pub history_len: nat,
    /// The roster.
    pub actors: Seq<ActorId>,
    pub local_actor: ActorId,
    /// The simulated entity.
    pub entity_id: EntityId,
    /// The number of ticks simulated so far, which is the next tick's number.
    pub next_tick: Tick,
    /// The state before tick 0.
    pub initial: EntityState,
    /// The state after the last simulated tick.
    pub live: EntityState,
    /// The local samples, by tick of capture.
    pub recorded: Map<Tick, ActionEventData>,
    /// The confirmed frames.
    pub confirmed: Frames,
    /// What each tick was last simulated with.
    pub used: Frames,
    /// The snapshot history.
    pub snapshots: Map<Tick, EntityState>,
    pub phase: Phase,
    /// During a replay, the state after the last replayed tick.
    pub working: EntityState,
    /// The live state when the current or last replay began.
    pub before_rollback: EntityState,
    /// The correction of the last rollback.
    pub correction: Option<Correction>,
}

impl SessionView {
    pub open spec fn wf(self) -> bool {
        &&& self.config.valid()
        &&& self.history_len >= self.config.window()
        &&& sampled_below(self.recorded, self.sample_bound())
        &&& match self.phase {
            Phase::Idle => true,
            Phase::Stepping => self.next_tick < u64::MAX,
            Phase::RollbackPending { target } => target <= self.next_tick,
            Phase::Resimulating { from, tick } => from <= tick < self.next_tick && self.next_tick
                - from <= self.config.max_prediction_ticks,
        }
    }

    /// The first tick that has no local sample yet: the next tick, or the
    /// one after it while the next tick is being simulated.
    pub open spec fn sample_bound(self) -> int {
        if self.phase is Stepping {
            self.next_tick + 1
        } else {
            self.next_tick as int
        }
    }

    /// The session as it starts: nothing simulated, nothing received.
    pub open spec fn start(
        config: SessionConfig,
        history_len: nat,
        tolerance: u32,
        actors: Seq<ActorId>,
        local_actor: ActorId,
        entity_id: EntityId,
        initial: EntityState,
    ) -> SessionView {
        SessionView {
            config,
            tolerance,
            history_len,
            actors,
            local_actor,
            entity_id,
            next_tick: 0,
            initial,
            live: initial,
            recorded: Map::empty(),
            confirmed: Map::empty(),
            used: Map::empty(),
            snapshots: Map::empty(),
            phase: Phase::Idle,
            working: initial,
            before_rollback: initial,
            correction: None,
        }
    }

    /// Whether a new tick can begin: nothing is pending and tick numbers are left.
    pub open spec fn can_begin(self) -> bool {
        self.phase is Idle && self.next_tick + self.config.input_delay_ticks < u64::MAX
    }

    /// Begins the next tick with the local actor's sample: cuts the input
    /// histories to the rollback window, keeping each actor's last confirmed
    /// frame before it, stores the sample, confirms it for
    /// the tick at which the input delay lets it take effect, and puts on
    /// record what the tick is simulated with.
    pub open spec fn begin_tick(self, sample: ActionEventData) -> (SessionView, Directive) {
        if !self.can_begin() {
            (self, Directive::Refused)
        } else {
            let tick = self.next_tick;
            let cutoff = eviction_cutoff(tick, self.config.window() as u32);
            let effective = (tick + self.config.input_delay_ticks) as Tick;
            let confirmed = kept_with_last(self.confirmed, cutoff).insert(
                (self.local_actor, effective),
                sample,
            );
            (
                SessionView {
                    recorded: samples_from(self.recorded, cutoff).insert(tick, sample),
                    confirmed,
                    used: recorded_use(kept_from(self.used, cutoff), confirmed, self.actors, tick),
                    phase: Phase::Stepping,
                    ..self
                },
                Directive::Simulate(StepRequest { tick, state: self.live }),
            )
        }
    }

    /// Takes the state that the awaited tick was simulated to.
    pub open spec fn complete_step(self, state: EntityState) -> (SessionView, Directive) {
        match self.phase {
            Phase::Stepping => (
                SessionView {
                    snapshots: saved(self.snapshots, self.history_len, self.next_tick, state),
                    live: state,
                    next_tick: (self.next_tick + 1) as Tick,
                    phase: Phase::Idle,
                    ..self
                },
                Directive::Settled,
            ),
            Phase::Resimulating { from, tick } => {
                let snapshots = saved(self.snapshots, self.history_len, tick, state);
                if tick + 1 >= self.next_tick {
                    let correction = Correction {
                        from: self.before_rollback,
                        to: state,
                        start_tick: self.next_tick,
                        duration_ticks: self.config.correction_ticks_spec(
                            (self.next_tick - from) as u32,
                        ) as u64,
                    };
                    (
                        SessionView {
                            snapshots,
                            live: state,
                            working: state,
                            phase: Phase::Idle,
                            correction: Some(correction),
                            ..self
                        },
                        Directive::Corrected(correction),
                    )
                } else {
                    let next = (tick + 1) as Tick;
                    (
                        SessionView {
                            snapshots,
                            working: state,
                            used: recorded_use(self.used, self.confirmed, self.actors, next),
                            phase: Phase::Resimulating { from, tick: next },
                            ..self
                        },
                        Directive::Simulate(StepRequest { tick: next, state }),
                    )
                }
            },
            _ => (self, Directive::Refused),
        }
    }

    /// Takes a remote update.
    pub open spec fn receive(self, update: RemoteUpdate) -> (SessionView, ReceiveOutcome) {
        if !(self.phase is Idle || self.phase is RollbackPending) {
            (self, ReceiveOutcome::Deferred)
        } else {
            match update {
                RemoteUpdate::Input { actor_id, tick, action_vector } => {
                    if !self.actors.contains(actor_id) {
                        (self, ReceiveOutcome::Ignored)
                    } else {
                        let confirmed = self.confirmed.insert((actor_id, tick), action_vector);
                        if tick < self.next_tick && contradicts(
                            self.used,
                            actor_id,
                            tick,
                            action_vector,
                            self.tolerance,
                        ) {
                            let target = earliest_target(self.phase, tick);
                            (
                                SessionView {
                                    confirmed,
                                    phase: Phase::RollbackPending { target },
                                    ..self
                                },
                                ReceiveOutcome::RollbackScheduled { target },
                            )
                        } else {
                            (SessionView { confirmed, ..self }, ReceiveOutcome::Confirmed)
                        }
                    }
                },
                RemoteUpdate::AuthoritativeState { tick, entity_state } => {
                    if tick >= self.next_tick {
                        (self, ReceiveOutcome::Ignored)
                    } else if !self.snapshots.contains_key(tick) {
                        (self, ReceiveOutcome::Desync(DesyncReason::SnapshotEvicted))
                    } else if self.snapshots[tick].close_to(entity_state, self.tolerance) {
                        (self, ReceiveOutcome::Confirmed)
                    } else {
                        let target = earliest_target(self.phase, (tick + 1) as Tick);
                        (
                            SessionView {
                                snapshots: saved(
                                    self.snapshots,
                                    self.history_len,
                                    tick,
                                    entity_state,
                                ),
                                phase: Phase::RollbackPending { target },
                                ..self
                            },
                            ReceiveOutcome::RollbackScheduled { target },
                        )
                    }
                },
            }
        }
    }

    /// The state to replay from, for a rollback to `target`: the state after
    /// the tick before it.
    pub open spec fn base_of(self, target: Tick) -> Option<EntityState> {
        if target == 0 {
            Some(self.initial)
        } else if self.snapshots.contains_key((target - 1) as Tick) {
            Some(self.snapshots[(target - 1) as Tick])
        } else {
            None
        }
    }

    /// Starts the pending rollback, or drops it where it cannot be served.
    pub open spec fn begin_rollback(self) -> (SessionView, Directive) {
        match self.phase {
            Phase::RollbackPending { target } => {
                if self.next_tick - target > self.config.max_prediction_ticks {
                    (
                        SessionView { phase: Phase::Idle, ..self },
                        Directive::Desync(DesyncReason::ExceedsPredictionWindow),
                    )
                } else {
                    match self.base_of(target) {
                        None => (
                            SessionView { phase: Phase::Idle, ..self },
                            Directive::Desync(DesyncReason::SnapshotEvicted),
                        ),
                        Some(base) => if target >= self.next_tick {
                            let correction = Correction {
                                from: self.live,
                                to: base,
                                start_tick: self.next_tick,
                                duration_ticks: self.config.correction_ticks_spec(0) as u64,
                            };
                            (
                                SessionView {
                                    live: base,
                                    before_rollback: self.live,
                                    phase: Phase::Idle,
                                    correction: Some(correction),
                                    ..self
                                },
                                Directive::Corrected(correction),
                            )
                        } else {
                            (
                                SessionView {
                                    before_rollback: self.live,
                                    working: base,
                                    used: recorded_use(
                                        self.used,
                                        self.confirmed,
                                        self.actors,
                                        target,
                                    ),
                                    phase: Phase::Resimulating { from: target, tick: target },
                                    ..self
                                },
                                Directive::Simulate(StepRequest { tick: target, state: base }),
                            )
                        },
                    }
                }
            },
            _ => (self, Directive::Refused),
        }
    }
}

/// The session after the updates were received one after the other.
pub open spec fn receive_all(v: SessionView, updates: Seq<RemoteUpdate>) -> SessionView
    decreases updates.len(),
{
    if updates.len() == 0 {
        v
    } else {
        receive_all(v, updates.drop_last()).receive(updates.last()).0
    }
}


} // verus!
