//! What holds of the engine whatever the simulation step does, as long as it
//! is a function of the state and the inputs it is given.

use vstd::prelude::*;
use crate::action::ActionEventData;
use crate::channel::RemoteUpdate;
use crate::entity::{ActorId, EntityState, Tick};
use crate::frames::{Frames, InputFrame};
use crate::input_buffer::best_input;
use crate::model::{step_frames, Directive, Phase, ReceiveOutcome, SessionView, StepRequest};
use crate::scalar::lemma_close_reflexive;

verus! {

/// A deterministic simulation step: the state after a tick, given the state
/// before it and the frames of the roster's actors. Whether a frame is a
/// prediction is not for the step to know.
pub type StepFn = spec_fn(EntityState, Seq<InputFrame>) -> EntityState;

/// The state after the ticks `from`, `from + 1`, ... up to but not including
/// `to` were simulated one after the other, starting from `state`, each with
/// the best inputs that `confirmed` gives for it.
pub open spec fn replay(
    step: StepFn,
    confirmed: Frames,
    actors: Seq<ActorId>,
    state: EntityState,
    from: Tick,
    to: Tick,
) -> EntityState
    decreases to - from,
{
    if from >= to {
        state
    } else {
        replay(
            step,
            confirmed,
            actors,
            step(state, step_frames(confirmed, actors, from)),
            (from + 1) as Tick,
            to,
        )
    }
}

/// The session after the simulation has answered every step of the replay
/// that is under way, each with what `step` gives for the request.
pub open spec fn resimulate(step: StepFn, v: SessionView) -> SessionView
    decreases
        (match v.phase {
            Phase::Resimulating { from, tick } => v.next_tick - tick,
            _ => 0,
        }),
{
    match v.phase {
        Phase::Resimulating { from, tick } => if tick < v.next_tick {
            resimulate(
                step,
                v.complete_step(step(v.working, step_frames(v.confirmed, v.actors, tick))).0,
            )
        } else {
            v
        },
        _ => v,
    }
}

/// That two sessions have the same parameters.
pub open spec fn same_setup(a: SessionView, b: SessionView) -> bool {
    &&& a.config == b.config
    &&& a.tolerance == b.tolerance
    &&& a.history_len == b.history_len
    &&& a.actors == b.actors
    &&& a.local_actor == b.local_actor
    &&& a.entity_id == b.entity_id
    &&& a.initial == b.initial
}

/// That the record of what `tick` was simulated with agrees with the
/// confirmed frames as they stand.
pub open spec fn use_is_current(v: SessionView, tick: Tick) -> bool {
    forall|a: ActorId| #[trigger]
        v.actors.contains(a) ==> v.used.contains_key((a, tick)) && v.used[(a, tick)] == best_input(
            v.confirmed,
            a,
            tick,
        ).frame.action_vector
}

/// A forward tick simulates the live state with the best inputs of that
/// tick: once its step is answered by `step`, the live state is the replay
/// of that one tick, and it is the tick's snapshot.
pub proof fn law_forward_tick_is_replayed_tick(
    step: StepFn,
    v: SessionView,
    sample: ActionEventData,
)
    requires
        v.wf(),
        v.can_begin(),
    ensures
        ({
            let (begun, directive) = v.begin_tick(sample);
            let inputs = step_frames(begun.confirmed, begun.actors, v.next_tick);
            let (done, settled) = begun.complete_step(step(v.live, inputs));
            &&& directive == Directive::Simulate(StepRequest { tick: v.next_tick, state: v.live })
            &&& settled == Directive::Settled
            &&& done.wf()
            &&& done.phase is Idle
            &&& done.next_tick == v.next_tick + 1
            &&& done.live == replay(
                step,
                begun.confirmed,
                begun.actors,
                v.live,
                v.next_tick,
                done.next_tick,
            )
            &&& done.snapshots.contains_key(v.next_tick)
            &&& done.snapshots[v.next_tick] == done.live
            &&& use_is_current(done, v.next_tick)
        }),
{
    let (begun, directive) = v.begin_tick(sample);
    let inputs = step_frames(begun.confirmed, begun.actors, v.next_tick);
    let next = (v.next_tick + 1) as Tick;
    assert(replay(step, begun.confirmed, begun.actors, step(v.live, inputs), next, next) == step(
        v.live,
        inputs,
    ));
}

/// A replay that is under way ends, once every step is answered by `step`,
/// with the engine idle, the live state equal to the replay of the
/// outstanding ticks from the working state, the last tick's snapshot equal
/// to it, and a correction from the state before the rollback to it. The
/// replay changes neither the confirmed frames nor the number of ticks, and
/// what it used is then on record for each replayed tick.
pub proof fn law_resimulation_is_replay(step: StepFn, v: SessionView)
    requires
        v.wf(),
        v.phase is Resimulating,
        use_is_current(v, v.phase->tick),
    ensures
        ({
            let done = resimulate(step, v);
            &&& done.wf()
            &&& done.phase is Idle
            &&& done.next_tick == v.next_tick
            &&& done.confirmed == v.confirmed
            &&& same_setup(done, v)
            &&& done.live == replay(
                step,
                v.confirmed,
                v.actors,
                v.working,
                v.phase->tick,
                v.next_tick,
            )
            &&& done.snapshots.contains_key((v.next_tick - 1) as Tick)
            &&& done.snapshots[(v.next_tick - 1) as Tick] == done.live
            &&& done.correction matches Some(c) && c.from == v.before_rollback && c.to
                == done.live && c.start_tick == v.next_tick && c.duration_ticks
                == v.config.correction_ticks_spec((v.next_tick - v.phase->from) as u32)
            &&& forall|t: Tick| v.phase->tick <= t < v.next_tick ==> use_is_current(done, t)
        }),
    decreases v.next_tick - v.phase->tick,
{
    let tick = v.phase->tick;
    let from = v.phase->from;
    let state = step(v.working, step_frames(v.confirmed, v.actors, tick));
    let (after, directive) = v.complete_step(state);
    assert(resimulate(step, v) == resimulate(step, after));
    assert(replay(step, v.confirmed, v.actors, v.working, tick, v.next_tick) == replay(
        step,
        v.confirmed,
        v.actors,
        state,
        (tick + 1) as Tick,
        v.next_tick,
    ));
    if tick + 1 >= v.next_tick {
        assert(resimulate(step, after) == after);
        let next = (tick + 1) as Tick;
        assert(replay(step, v.confirmed, v.actors, state, next, v.next_tick) == state);
        v.config.lemma_correction_ticks_fit((v.next_tick - from) as u32);
        assert forall|t: Tick| tick <= t < v.next_tick implies use_is_current(after, t) by {
            assert(t == tick);
        }
    } else {
        let next = (tick + 1) as Tick;
        assert(after.phase == Phase::Resimulating { from, tick: next });
        assert(use_is_current(after, next));
        law_resimulation_is_replay(step, after);
        let done = resimulate(step, after);
        assert forall|t: Tick| tick <= t < v.next_tick implies use_is_current(done, t) by {
            if t == tick {
                lemma_replay_keeps_record(step, after, tick);
                assert forall|a: ActorId| #[trigger] done.actors.contains(a) implies done.used.contains_key(
                    (a, tick),
                ) && done.used[(a, tick)] == best_input(done.confirmed, a, tick).frame.action_vector by {
                    assert(v.actors.contains(a));
                    assert(after.used.contains_key((a, tick)));
                    assert(resimulate(step, after).used.contains_key((a, tick)));
                }
            }
        }
    }
}

/// A replay leaves the record of the ticks before the awaited one as it is.
proof fn lemma_replay_keeps_record(step: StepFn, v: SessionView, t: Tick)
    requires
        v.wf(),
        v.phase is Resimulating,
        t < v.phase->tick,
    ensures
        forall|a: ActorId|
            v.used.contains_key((a, t)) ==> #[trigger] resimulate(step, v).used.contains_key(
                (a, t),
            ) && resimulate(step, v).used[(a, t)] == v.used[(a, t)],
        resimulate(step, v).confirmed == v.confirmed,
        resimulate(step, v).actors == v.actors,
    decreases v.next_tick - v.phase->tick,
{
    let tick = v.phase->tick;
    let state = step(v.working, step_frames(v.confirmed, v.actors, tick));
    let (after, directive) = v.complete_step(state);
    assert(resimulate(step, v) == resimulate(step, after));
    if tick + 1 >= v.next_tick {
        assert(resimulate(step, after) == after);
    } else {
        lemma_replay_keeps_record(step, after, t);
        assert forall|a: ActorId| v.used.contains_key((a, t)) implies #[trigger] resimulate(
            step,
            v,
        ).used.contains_key((a, t)) && resimulate(step, v).used[(a, t)] == v.used[(a, t)] by {
            assert(after.used.contains_key((a, t)));
            assert(resimulate(step, after).used.contains_key((a, t)));
        }
    }
}

/// Rollback correctness: where the pending rollback can be served and has
/// ticks to replay, the live state after the replay is the state that
/// simulating those ticks from the base, each with the best inputs of the
/// confirmed frames as they now stand, gives. Nothing of what was simulated
/// before with other inputs is left in it.
pub proof fn law_rollback_is_replay_from_base(step: StepFn, v: SessionView)
    requires
        v.wf(),
        v.phase is RollbackPending,
        v.phase->target < v.next_tick,
        v.next_tick - v.phase->target <= v.config.max_prediction_ticks,
        v.base_of(v.phase->target) is Some,
    ensures
        ({
            let target = v.phase->target;
            let base = v.base_of(target)->Some_0;
            let (started, directive) = v.begin_rollback();
            let done = resimulate(step, started);
            &&& directive == Directive::Simulate(StepRequest { tick: target, state: base })
            &&& done.phase is Idle
            &&& done.wf()
            &&& done.next_tick == v.next_tick
            &&& done.confirmed == v.confirmed
            &&& same_setup(done, v)
            &&& done.live == replay(step, v.confirmed, v.actors, base, target, v.next_tick)
            &&& done.snapshots.contains_key((v.next_tick - 1) as Tick)
            &&& done.snapshots[(v.next_tick - 1) as Tick] == done.live
            &&& done.correction matches Some(c) && c.from == v.live && c.to == done.live
                && c.duration_ticks == v.config.correction_ticks_spec(
                (v.next_tick - target) as u32,
            )
            &&& forall|t: Tick| target <= t < v.next_tick ==> use_is_current(done, t)
        }),
{
    let (started, directive) = v.begin_rollback();
    assert(use_is_current(started, v.phase->target));
    law_resimulation_is_replay(step, started);
}

/// An authoritative state that differs from the snapshot of its tick takes
/// the snapshot's place, and the rollback it schedules replays the later
/// ticks from it: the live state is then the replay from the authoritative
/// state, or that state itself where its tick was the last.
pub proof fn law_authoritative_state_is_replayed_from(
    step: StepFn,
    v: SessionView,
    tick: Tick,
    entity_state: EntityState,
)
    requires
        v.wf(),
        v.phase is Idle,
        tick < v.next_tick,
        v.next_tick - tick - 1 <= v.config.max_prediction_ticks,
        v.snapshots.contains_key(tick),
        !v.snapshots[tick].close_to(entity_state, v.tolerance),
    ensures
        ({
            let (taken, outcome) = v.receive(
                RemoteUpdate::AuthoritativeState { tick, entity_state },
            );
            let done = resimulate(step, taken.begin_rollback().0);
            &&& outcome == ReceiveOutcome::RollbackScheduled { target: (tick + 1) as Tick }
            &&& taken.snapshots.contains_key(tick)
            &&& taken.snapshots[tick] == entity_state
            &&& done.phase is Idle
            &&& done.next_tick == v.next_tick
            &&& done.live == replay(
                step,
                v.confirmed,
                v.actors,
                entity_state,
                (tick + 1) as Tick,
                v.next_tick,
            )
        }),
{
    let (taken, outcome) = v.receive(RemoteUpdate::AuthoritativeState { tick, entity_state });
    let next = (tick + 1) as Tick;
    assert(taken.base_of(next) == Some(entity_state));
    if next < v.next_tick {
        law_rollback_is_replay_from_base(step, taken);
    } else {
        let (ended, directive) = taken.begin_rollback();
        assert(resimulate(step, ended) == ended);
    }
}

/// Idempotence: an update that is delivered a second time, right after the
/// first, changes nothing: where the second delivery reports a rollback, it
/// is the one that the first had scheduled already.
pub proof fn law_duplicate_delivery_changes_nothing(v: SessionView, update: RemoteUpdate)
    requires
        v.wf(),
    ensures
        ({
            let (once, first) = v.receive(update);
            let (twice, second) = once.receive(update);
            &&& twice == once
            &&& second is RollbackScheduled ==> second == first
        }),
{
    let (once, first) = v.receive(update);
    let (twice, second) = once.receive(update);
    match update {
        RemoteUpdate::Input { actor_id, tick, action_vector } => {
            assert(twice.confirmed =~= once.confirmed);
            assert(twice =~= once);
        },
        RemoteUpdate::AuthoritativeState { tick, entity_state } => {
            if first is RollbackScheduled {
                lemma_state_close_to_itself(entity_state, v.tolerance);
                assert(once.snapshots[tick] == entity_state);
            }
        },
    }
}

/// Idempotence across a rollback: once the rollback that a confirmed input
/// caused is carried out, the same input delivered again schedules nothing
/// and changes nothing.
pub proof fn law_redelivery_after_rollback_schedules_nothing(
    step: StepFn,
    v: SessionView,
    actor_id: ActorId,
    tick: Tick,
    action_vector: ActionEventData,
)
    requires
        v.wf(),
        v.phase is RollbackPending,
        v.next_tick - v.phase->target <= v.config.max_prediction_ticks,
        v.base_of(v.phase->target) is Some,
        v.actors.contains(actor_id),
        v.phase->target <= tick < v.next_tick,
        v.confirmed.contains_key((actor_id, tick)),
        v.confirmed[(actor_id, tick)] == action_vector,
    ensures
        ({
            let done = resimulate(step, v.begin_rollback().0);
            done.receive(RemoteUpdate::Input { actor_id, tick, action_vector }) == (
                done,
                ReceiveOutcome::Confirmed,
            )
        }),
{
    law_rollback_is_replay_from_base(step, v);
    let done = resimulate(step, v.begin_rollback().0);
    assert(use_is_current(done, tick));
    assert(done.actors.contains(actor_id));
    assert(done.used[(actor_id, tick)] == action_vector);
    lemma_action_close_to_itself(action_vector, done.tolerance);
    assert(done.confirmed.insert((actor_id, tick), action_vector) =~= done.confirmed);
}

proof fn lemma_action_close_to_itself(a: ActionEventData, tolerance: u32)
    ensures
        a.close_to(a, tolerance),
{
    lemma_close_reflexive(a.thrust, tolerance);
}

proof fn lemma_state_close_to_itself(s: EntityState, tolerance: u32)
    ensures
        s.close_to(s, tolerance),
{
    lemma_close_reflexive(s.position.x, tolerance);
}

/// The session without what is kept for the display only: the correction
/// of the last rollback and the state that was shown when it began.
pub open spec fn simulation_of(v: SessionView) -> SessionView {
    SessionView { correction: None, before_rollback: v.initial, ..v }
}

/// Whether two directives ask the same of the simulation: the same step, or
/// both none.
pub open spec fn same_request(a: Directive, b: Directive) -> bool {
    match a {
        Directive::Simulate(request) => b == a,
        Directive::Corrected(_) => b is Corrected,
        _ => b == a,
    }
}

/// A correction never feeds back: what a call does to the simulation, and
/// what it asks of it, does not depend on the correction that the session
/// holds nor on the state that was shown before a rollback.
pub proof fn law_correction_never_feeds_back(
    a: SessionView,
    b: SessionView,
    sample: ActionEventData,
    state: EntityState,
    update: RemoteUpdate,
)
    requires
        simulation_of(a) == simulation_of(b),
    ensures
        simulation_of(a.begin_tick(sample).0) == simulation_of(b.begin_tick(sample).0),
        a.begin_tick(sample).1 == b.begin_tick(sample).1,
        simulation_of(a.complete_step(state).0) == simulation_of(b.complete_step(state).0),
        same_request(a.complete_step(state).1, b.complete_step(state).1),
        simulation_of(a.receive(update).0) == simulation_of(b.receive(update).0),
        a.receive(update).1 == b.receive(update).1,
        simulation_of(a.begin_rollback().0) == simulation_of(b.begin_rollback().0),
        same_request(a.begin_rollback().1, b.begin_rollback().1),
{
    let sa = simulation_of(a);
    let sb = simulation_of(b);
    assert(a.config == sa.config && b.config == sb.config);
    assert(a.tolerance == sa.tolerance && b.tolerance == sb.tolerance);
    assert(a.history_len == sa.history_len && b.history_len == sb.history_len);
    assert(a.actors == sa.actors && b.actors == sb.actors);
    assert(a.local_actor == sa.local_actor && b.local_actor == sb.local_actor);
    assert(a.entity_id == sa.entity_id && b.entity_id == sb.entity_id);
    assert(a.next_tick == sa.next_tick && b.next_tick == sb.next_tick);
    assert(a.initial == sa.initial && b.initial == sb.initial);
    assert(a.live == sa.live && b.live == sb.live);
    assert(a.recorded == sa.recorded && b.recorded == sb.recorded);
    assert(a.confirmed == sa.confirmed && b.confirmed == sb.confirmed);
    assert(a.used == sa.used && b.used == sb.used);
    assert(a.snapshots == sa.snapshots && b.snapshots == sb.snapshots);
    assert(a.phase == sa.phase && b.phase == sb.phase);
    assert(a.working == sa.working && b.working == sb.working);
}

} // verus!
