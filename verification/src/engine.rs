//! The rollback engine: a session's input buffer, snapshot history and the
//! state machine that decides when to roll back and what to replay.
//!
//! The engine alternates with the simulation. It names a tick, the state to
//! simulate it from and the inputs to use; the caller runs the simulation
//! step and reports the state that came out. The step has to be
//! deterministic: the same state and inputs give the same result.

use vstd::prelude::*;
use crate::action::ActionEventData;
use crate::channel::RemoteUpdate;
use crate::config::{ConfigError, SessionConfig};
use crate::correction::Correction;
use crate::entity::{ActorId, EntityId, EntityState, Tick};
use crate::frames::{FrameTable, InputFrame};
use crate::input_buffer::{InputBuffer, PredictedInput};
use crate::model::{
    awaits_confirmation, receive_all, recorded_use, step_frames, step_inputs, DesyncReason, Directive, Phase, ReceiveOutcome, SessionView,
    StepRequest,
};
use crate::snapshot::SnapshotStore;

verus! {

pub struct Session {
    config: SessionConfig,
    tolerance: u32,
    actors: Vec<ActorId>,
    local_actor: ActorId,
    next_tick: Tick,
    initial: EntityState,
    live: EntityState,
    inputs: InputBuffer,
    used: FrameTable,
    snapshots: SnapshotStore,
    phase: Phase,
    working: EntityState,
    before_rollback: EntityState,
    correction: Option<Correction>,
}

/// The first rule that a session's parameters break, if they break one.
pub open spec fn startup_error(
    config: SessionConfig,
    history_len: usize,
    actors: Seq<ActorId>,
    local_actor: ActorId,
) -> Option<ConfigError> {
    if config.max_prediction_ticks == 0 {
        Some(ConfigError::NoPredictionWindow)
    } else if config.correction_ticks_factor < 0 {
        Some(ConfigError::NegativeCorrectionFactor)
    } else if history_len < config.window() {
        Some(ConfigError::HistoryTooShort)
    } else if actors.len() != config.player_count {
        Some(ConfigError::RosterMismatch)
    } else if !actors.no_duplicates() {
        Some(ConfigError::DuplicateActor)
    } else if !actors.contains(local_actor) {
        Some(ConfigError::UnknownLocalActor)
    } else {
        None
    }
}

proof fn lemma_contains_push(s: Seq<ActorId>, a: ActorId, x: ActorId)
    ensures
        s.push(a).contains(x) == (s.contains(x) || x == a),
{
    if s.contains(x) {
        let i = choose|i: int| 0 <= i < s.len() && s[i] == x;
        assert(s.push(a)[i] == x);
    }
    if x == a {
        assert(s.push(a)[s.len() as int] == x);
    }
    if s.push(a).contains(x) {
        let i = choose|i: int| 0 <= i < s.push(a).len() && s.push(a)[i] == x;
        if i < s.len() {
            assert(s[i] == x);
        }
    }
}

/// Whether `actor_id` is in the roster.
fn roster_has(actors: &Vec<ActorId>, actor_id: ActorId) -> (r: bool)
    ensures
        r == actors@.contains(actor_id),
{
    let mut i: usize = 0;
    while i < actors.len()
        invariant
            i <= actors@.len(),
            forall|j: int| 0 <= j < i ==> actors@[j] != actor_id,
        decreases actors@.len() - i,
    {
        if actors[i] == actor_id {
            return true;
        }
        i = i + 1;
    }
    false
}

/// Whether no actor occurs twice in the roster.
fn roster_distinct(actors: &Vec<ActorId>) -> (r: bool)
    ensures
        r == actors@.no_duplicates(),
{
    let mut i: usize = 0;
    while i < actors.len()
        invariant
            i <= actors@.len(),
            forall|a: int, b: int| 0 <= a < i && a < b < actors@.len() ==> actors@[a] != actors@[b],
        decreases actors@.len() - i,
    {
        let mut j: usize = i + 1;
        while j < actors.len()
            invariant
                i < actors@.len(),
                i < j <= actors@.len(),
                forall|b: int| i < b < j ==> actors@[i as int] != actors@[b],
            decreases actors@.len() - j,
        {
            if actors[i] == actors[j] {
                return false;
            }
            j = j + 1;
        }
        i = i + 1;
    }
    true
}

/// Puts on record that `tick` is simulated with the best inputs that the
/// buffer gives for it.
fn record_use(used: &mut FrameTable, inputs: &InputBuffer, actors: &Vec<ActorId>, tick: Tick)
    requires
        old(used).wf(),
        inputs.wf(),
    ensures
        final(used).wf(),
        final(used)@ == recorded_use(old(used)@, inputs.confirmed(), actors@, tick),
{
    let ghost before = used@;
    let mut i: usize = 0;
    assert(used@ =~= recorded_use(before, inputs.confirmed(), actors@.subrange(0, 0), tick));
    while i < actors.len()
        invariant
            inputs.wf(),
            used.wf(),
            i <= actors@.len(),
            used@ == recorded_use(before, inputs.confirmed(), actors@.subrange(0, i as int), tick),
        decreases actors@.len() - i,
    {
        let input: PredictedInput = inputs.get_input(actors[i], tick);
        used.insert(input.frame);
        proof {
            let seen = actors@.subrange(0, i as int);
            let next = actors@.subrange(0, i + 1);
            assert(next =~= seen.push(actors@[i as int]));
            assert forall|x: ActorId| next.contains(x) == (seen.contains(x) || x == actors@[i as int]) by {
                lemma_contains_push(seen, actors@[i as int], x);
            }
            assert(used@ =~= recorded_use(before, inputs.confirmed(), next, tick));
        }
        i = i + 1;
    }
    assert(actors@.subrange(0, actors@.len() as int) =~= actors@);
}

impl View for Session {
    type V = SessionView;

    closed spec fn view(&self) -> SessionView {
        SessionView {
            config: self.config,
            tolerance: self.tolerance,
            history_len: self.snapshots.capacity(),
            actors: self.actors@,
            local_actor: self.local_actor,
            entity_id: self.snapshots.entity(),
            next_tick: self.next_tick,
            initial: self.initial,
            live: self.live,
            recorded: self.inputs.recorded(),
            confirmed: self.inputs.confirmed(),
            used: self.used@,
            snapshots: self.snapshots@,
            phase: self.phase,
            working: self.working,
            before_rollback: self.before_rollback,
            correction: self.correction,
        }
    }
}

impl Session {
    pub closed spec fn wf(&self) -> bool {
        &&& self.inputs.wf()
        &&& self.inputs.local_actor() == self.local_actor
        &&& self.used.wf()
        &&& self.snapshots.wf()
        &&& self@.wf()
    }

    /// Starts a session, or says which rule its parameters break.
    pub fn new(
        config: SessionConfig,
        history_len: usize,
        tolerance: u32,
        actors: Vec<ActorId>,
        local_actor: ActorId,
        entity_id: EntityId,
        initial: EntityState,
    ) -> (r: Result<Session, ConfigError>)
        ensures
            match r {
                Ok(session) => startup_error(config, history_len, actors@, local_actor) is None
                    && session.wf() && session@ == SessionView::start(
                    config,
                    history_len as nat,
                    tolerance,
                    actors@,
                    local_actor,
                    entity_id,
                    initial,
                ),
                Err(e) => startup_error(config, history_len, actors@, local_actor) == Some(e),
            },
    {
        match config.validate() {
            Err(e) => {
                return Err(e);
            },
            Ok(_) => {},
        }
        if !config.serves(history_len) {
            return Err(ConfigError::HistoryTooShort);
        }
        if actors.len() as u64 != config.player_count as u64 {
            return Err(ConfigError::RosterMismatch);
        }
        if !roster_distinct(&actors) {
            return Err(ConfigError::DuplicateActor);
        }
        if !roster_has(&actors, local_actor) {
            return Err(ConfigError::UnknownLocalActor);
        }
        match SnapshotStore::new(entity_id, history_len) {
            Err(e) => Err(e),
            Ok(snapshots) => Ok(
                Session {
                    config,
                    tolerance,
                    actors,
                    local_actor,
                    next_tick: 0,
                    initial,
                    live: initial,
                    inputs: InputBuffer::new(local_actor),
                    used: FrameTable::new(),
                    snapshots,
                    phase: Phase::Idle,
                    working: initial,
                    before_rollback: initial,
                    correction: None,
                },
            ),
        }
    }

    /// Begins the next tick with the local actor's sample of it. Answers
    /// with the tick to simulate, or refuses where a step or a rollback is
    /// pending or the tick numbers are used up.
    pub fn begin_tick(&mut self, sample: ActionEventData) -> (directive: Directive)
        requires
            old(self).wf(),
        ensures
            final(self).wf(),
            (final(self)@, directive) == old(self)@.begin_tick(sample),
    {
        let idle: bool = match self.phase {
            Phase::Idle => true,
            _ => false,
        };
        let delay: u64 = self.config.input_delay_ticks as u64;
        if !idle || self.next_tick >= u64::MAX - delay {
            return Directive::Refused;
        }
        let tick: Tick = self.next_tick;
        let window: u32 = self.config.rollback_window();
        let cutoff: Tick = if tick >= window as u64 {
            tick - window as u64
        } else {
            0
        };
        self.inputs.evict(tick, window);
        self.used.evict_before(cutoff);
        let stored: bool = self.inputs.record_local(tick, sample);
        assert(stored);
        self.inputs.confirm(self.local_actor, tick + delay, sample);
        record_use(&mut self.used, &self.inputs, &self.actors, tick);
        self.phase = Phase::Stepping;
        Directive::Simulate(StepRequest { tick, state: self.live })
    }

    /// Takes the state that the awaited tick was simulated to: stores its
    /// snapshot and says what comes next. During a replay that is the next
    /// tick to replay, or, after the last one, the correction to show.
    pub fn complete_step(&mut self, state: EntityState) -> (directive: Directive)
        requires
            old(self).wf(),
        ensures
            final(self).wf(),
            (final(self)@, directive) == old(self)@.complete_step(state),
    {
        match self.phase {
            Phase::Stepping => {
                self.snapshots.save(self.next_tick, state);
                self.live = state;
                self.next_tick = self.next_tick + 1;
                self.phase = Phase::Idle;
                Directive::Settled
            },
            Phase::Resimulating { from, tick } => {
                self.snapshots.save(tick, state);
                self.working = state;
                if tick + 1 >= self.next_tick {
                    let depth: u32 = (self.next_tick - from) as u32;
                    let correction = Correction {
                        from: self.before_rollback,
                        to: state,
                        start_tick: self.next_tick,
                        duration_ticks: self.config.correction_ticks(depth),
                    };
                    self.live = state;
                    self.phase = Phase::Idle;
                    self.correction = Some(correction);
                    Directive::Corrected(correction)
                } else {
                    let next: Tick = tick + 1;
                    record_use(&mut self.used, &self.inputs, &self.actors, next);
                    self.phase = Phase::Resimulating { from, tick: next };
                    Directive::Simulate(StepRequest { tick: next, state })
                }
            },
            _ => Directive::Refused,
        }
    }

    /// Takes a remote update. A confirmed input is stored; where it speaks of
    /// a tick that was simulated already with something else, a rollback to
    /// that tick is scheduled, or the pending one is moved back to it. An
    /// authoritative state that differs from the snapshot of its tick
    /// replaces it and schedules a rollback to the tick after.
    pub fn receive(&mut self, update: RemoteUpdate) -> (outcome: ReceiveOutcome)
        requires
            old(self).wf(),
        ensures
            final(self).wf(),
            (final(self)@, outcome) == old(self)@.receive(update),
    {
        let pending: Option<Tick> = match self.phase {
            Phase::Idle => None,
            Phase::RollbackPending { target } => Some(target),
            _ => {
                return ReceiveOutcome::Deferred;
            },
        };
        match update {
            RemoteUpdate::Input { actor_id, tick, action_vector } => {
                if !roster_has(&self.actors, actor_id) {
                    return ReceiveOutcome::Ignored;
                }
                let agrees: bool = match self.used.get(actor_id, tick) {
                    Some(was_used) => was_used.is_close(&action_vector, self.tolerance),
                    None => false,
                };
                self.inputs.confirm(actor_id, tick, action_vector);
                if tick < self.next_tick && !agrees {
                    let target: Tick = earlier(pending, tick);
                    self.phase = Phase::RollbackPending { target };
                    ReceiveOutcome::RollbackScheduled { target }
                } else {
                    ReceiveOutcome::Confirmed
                }
            },
            RemoteUpdate::AuthoritativeState { tick, entity_state } => {
                if tick >= self.next_tick {
                    return ReceiveOutcome::Ignored;
                }
                match self.snapshots.load(tick) {
                    None => ReceiveOutcome::Desync(DesyncReason::SnapshotEvicted),
                    Some(predicted) => {
                        if predicted.is_close(&entity_state, self.tolerance) {
                            ReceiveOutcome::Confirmed
                        } else {
                            self.snapshots.save(tick, entity_state);
                            let target: Tick = earlier(pending, tick + 1);
                            self.phase = Phase::RollbackPending { target };
                            ReceiveOutcome::RollbackScheduled { target }
                        }
                    },
                }
            },
        }
    }

    /// Takes the updates one after the other, as `receive` does, and answers
    /// with the outcome of each.
    pub fn receive_all(&mut self, updates: &Vec<RemoteUpdate>) -> (outcomes: Vec<ReceiveOutcome>)
        requires
            old(self).wf(),
        ensures
            final(self).wf(),
            final(self)@ == receive_all(old(self)@, updates@),
            outcomes@.len() == updates@.len(),
            forall|i: int|
                0 <= i < updates@.len() ==> outcomes@[i] == receive_all(
                    old(self)@,
                    updates@.subrange(0, i),
                ).receive(updates@[i]).1,
    {
        let mut outcomes: Vec<ReceiveOutcome> = Vec::new();
        let mut i: usize = 0;
        assert(updates@.subrange(0, 0) =~= Seq::<RemoteUpdate>::empty());
        while i < updates.len()
            invariant
                self.wf(),
                i <= updates@.len(),
                outcomes@.len() == i,
                self@ == receive_all(old(self)@, updates@.subrange(0, i as int)),
                forall|j: int|
                    0 <= j < i ==> outcomes@[j] == receive_all(
                        old(self)@,
                        updates@.subrange(0, j),
                    ).receive(updates@[j]).1,
            decreases updates@.len() - i,
        {
            let outcome: ReceiveOutcome = self.receive(updates[i]);
            outcomes.push(outcome);
            proof {
                let next = updates@.subrange(0, i + 1);
                assert(next.drop_last() =~= updates@.subrange(0, i as int));
                assert(next.last() == updates@[i as int]);
            }
            i = i + 1;
        }
        assert(updates@.subrange(0, updates@.len() as int) =~= updates@);
        outcomes
    }

    /// Starts the pending rollback: answers with the first tick to replay,
    /// or with the correction where nothing is to replay. Where the rollback
    /// reaches further back than the policy allows, or the state to replay
    /// from is gone, the rollback is dropped and a desync is reported.
    pub fn begin_rollback(&mut self) -> (directive: Directive)
        requires
            old(self).wf(),
        ensures
            final(self).wf(),
            (final(self)@, directive) == old(self)@.begin_rollback(),
    {
        match self.phase {
            Phase::RollbackPending { target } => {
                if self.next_tick - target > self.config.max_prediction_ticks as u64 {
                    self.phase = Phase::Idle;
                    return Directive::Desync(DesyncReason::ExceedsPredictionWindow);
                }
                let base: Option<EntityState> = if target == 0 {
                    Some(self.initial)
                } else {
                    self.snapshots.load(target - 1)
                };
                match base {
                    None => {
                        self.phase = Phase::Idle;
                        Directive::Desync(DesyncReason::SnapshotEvicted)
                    },
                    Some(base) => {
                        self.before_rollback = self.live;
                        if target >= self.next_tick {
                            let correction = Correction {
                                from: self.live,
                                to: base,
                                start_tick: self.next_tick,
                                duration_ticks: self.config.correction_ticks(0),
                            };
                            self.live = base;
                            self.phase = Phase::Idle;
                            self.correction = Some(correction);
                            Directive::Corrected(correction)
                        } else {
                            self.working = base;
                            record_use(&mut self.used, &self.inputs, &self.actors, target);
                            self.phase = Phase::Resimulating { from: target, tick: target };
                            Directive::Simulate(StepRequest { tick: target, state: base })
                        }
                    },
                }
            },
            _ => Directive::Refused,
        }
    }

    /// The inputs to simulate `tick` with, one per actor, in the roster's order.
    pub fn inputs_at(&self, tick: Tick) -> (inputs: Vec<PredictedInput>)
        requires
            self.wf(),
        ensures
            inputs@ == step_inputs(self@.confirmed, self@.actors, tick),
    {
        let mut inputs: Vec<PredictedInput> = Vec::new();
        let mut i: usize = 0;
        while i < self.actors.len()
            invariant
                self.wf(),
                i <= self.actors@.len(),
                inputs@.len() == i,
                forall|j: int|
                    0 <= j < i ==> inputs@[j] == crate::input_buffer::best_input(
                        self@.confirmed,
                        self@.actors[j],
                        tick,
                    ),
            decreases self.actors@.len() - i,
        {
            inputs.push(self.inputs.get_input(self.actors[i], tick));
            i = i + 1;
        }
        assert(inputs@ =~= step_inputs(self@.confirmed, self@.actors, tick));
        inputs
    }

    /// Whether some input of `tick` is a prediction that a confirmation may
    /// still correct.
    pub fn awaits_confirmation(&self, tick: Tick) -> (r: bool)
        requires
            self.wf(),
        ensures
            r == awaits_confirmation(self@.confirmed, self@.actors, tick),
    {
        let mut i: usize = 0;
        while i < self.actors.len()
            invariant
                self.wf(),
                i <= self.actors@.len(),
                forall|j: int|
                    0 <= j < i ==> !(#[trigger] step_inputs(
                        self@.confirmed,
                        self@.actors,
                        tick,
                    )[j]).predicted,
            decreases self.actors@.len() - i,
        {
            let input: PredictedInput = self.inputs.get_input(self.actors[i], tick);
            if input.predicted {
                assert(step_inputs(self@.confirmed, self@.actors, tick)[i as int].predicted);
                return true;
            }
            i = i + 1;
        }
        false
    }

    /// The frames to simulate `tick` with: the inputs of `inputs_at` without
    /// their marks.
    pub fn frames_at(&self, tick: Tick) -> (frames: Vec<InputFrame>)
        requires
            self.wf(),
        ensures
            frames@ == step_frames(self@.confirmed, self@.actors, tick),
    {
        let mut frames: Vec<InputFrame> = Vec::new();
        let mut i: usize = 0;
        while i < self.actors.len()
            invariant
                self.wf(),
                i <= self.actors@.len(),
                frames@.len() == i,
                forall|j: int|
                    0 <= j < i ==> frames@[j] == crate::input_buffer::best_input(
                        self@.confirmed,
                        self@.actors[j],
                        tick,
                    ).frame,
            decreases self.actors@.len() - i,
        {
            let input: PredictedInput = self.inputs.get_input(self.actors[i], tick);
            frames.push(input.frame);
            i = i + 1;
        }
        assert(frames@ =~= step_frames(self@.confirmed, self@.actors, tick));
        frames
    }

    /// The frame to send to the peers for the sample taken at `capture_tick`:
    /// the sample, for the tick at which the input delay lets it take effect.
    pub fn outbound_frame(&self, capture_tick: Tick) -> (r: Option<InputFrame>)
        requires
            self.wf(),
        ensures
            r == (if self@.recorded.contains_key(capture_tick) && capture_tick
                + self@.config.input_delay_ticks <= u64::MAX {
                Some(
                    InputFrame {
                        tick: (capture_tick + self@.config.input_delay_ticks) as Tick,
                        actor_id: self@.local_actor,
                        action_vector: self@.recorded[capture_tick],
                    },
                )
            } else {
                None::<InputFrame>
            }),
    {
        let delay: u64 = self.config.input_delay_ticks as u64;
        if capture_tick > u64::MAX - delay {
            return None;
        }
        match self.inputs.recorded_at(capture_tick) {
            Some(action_vector) => Some(
                InputFrame { tick: capture_tick + delay, actor_id: self.local_actor, action_vector },
            ),
            None => None,
        }
    }

    pub fn phase(&self) -> (phase: Phase)
        ensures
            phase == self@.phase,
    {
        self.phase
    }

    /// The number of ticks simulated so far.
    pub fn next_tick(&self) -> (tick: Tick)
        ensures
            tick == self@.next_tick,
    {
        self.next_tick
    }

    /// The state after the last simulated tick.
    pub fn live_state(&self) -> (state: EntityState)
        ensures
            state == self@.live,
    {
        self.live
    }

    /// The correction of the last rollback, if there was one.
    pub fn correction(&self) -> (correction: Option<Correction>)
        ensures
            correction == self@.correction,
    {
        self.correction
    }

    pub fn config(&self) -> (config: SessionConfig)
        ensures
            config == self@.config,
    {
        self.config
    }

    /// The snapshot of `tick`, if the history holds it.
    pub fn snapshot_at(&self, tick: Tick) -> (r: Option<EntityState>)
        requires
            self.wf(),
        ensures
            r == (if self@.snapshots.contains_key(tick) {
                Some(self@.snapshots[tick])
            } else {
                None::<EntityState>
            }),
    {
        self.snapshots.load(tick)
    }
}

fn earlier(pending: Option<Tick>, tick: Tick) -> (target: Tick)
    ensures
        target == (match pending {
            Some(p) => if p <= tick {
                p
            } else {
                tick
            },
            None => tick,
        }),
{
    match pending {
        Some(p) => if p <= tick {
            p
        } else {
            tick
        },
        None => tick,
    }
}

} // verus!
