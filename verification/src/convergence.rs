//! Convergence: whatever the order in which confirmed inputs arrive between
//! ticks and rollbacks, the history that the session holds is the one that
//! simulating with the confirmed inputs gives. This is stated of sessions
//! that compare without tolerance and receive confirmed inputs only.

use vstd::prelude::*;
use crate::action::{lemma_action_close_without_tolerance, ActionEventData};
use crate::channel::RemoteUpdate;
use crate::config::SessionConfig;
use crate::entity::{ActorId, EntityId, EntityState, Tick};
use crate::frames::{kept_with_last, FrameKey, Frames};
use crate::input_buffer::{
    agree_up_to, best_input, eviction_cutoff, law_best_input_is_held,
    law_best_input_reads_the_past, law_eviction_keeps_predictions,
};
use crate::laws::{
    law_resimulation_is_replay, replay, resimulate, same_setup, use_is_current, StepFn,
};
use crate::model::{step_frames, Phase, SessionView};
use crate::snapshot::{
    lemma_near_ticks_have_different_slots, lemma_ticks_a_turn_apart_share_a_slot,
};

verus! {

/// What happens to a session between two frames.
pub enum Event {
    /// A tick is begun with the local sample and simulated.
    Tick { sample: ActionEventData },
    /// A confirmed input is delivered.
    Deliver { actor_id: ActorId, tick: Tick, action_vector: ActionEventData },
    /// The pending rollback, if there is one, is started and replayed.
    Rollback,
}

/// The session after the event, where the simulation answers every step
/// with what `step` gives for it.
pub open spec fn apply(step: StepFn, v: SessionView, event: Event) -> SessionView {
    match event {
        Event::Tick { sample } => {
            let (begun, directive) = v.begin_tick(sample);
            if directive is Simulate {
                begun.complete_step(
                    step(v.live, step_frames(begun.confirmed, begun.actors, v.next_tick)),
                ).0
            } else {
                v
            }
        },
        Event::Deliver { actor_id, tick, action_vector } => v.receive(
            RemoteUpdate::Input { actor_id, tick, action_vector },
        ).0,
        Event::Rollback => resimulate(step, v.begin_rollback().0),
    }
}

/// The session after the events, in their order.
pub open spec fn run(step: StepFn, v: SessionView, events: Seq<Event>) -> SessionView
    decreases events.len(),
{
    if events.len() == 0 {
        v
    } else {
        apply(step, run(step, v, events.drop_last()), events.last())
    }
}

/// Whether the pending rollback, if there is one, can be served: it reaches
/// no further back than the policy allows and its base is in the history.
pub open spec fn can_serve(v: SessionView) -> bool {
    v.phase is RollbackPending ==> v.next_tick - v.phase->target
        <= v.config.max_prediction_ticks && v.base_of(v.phase->target) is Some
}

/// Whether every rollback among the events can be served when it is started.
pub open spec fn all_served(step: StepFn, v: SessionView, events: Seq<Event>) -> bool
    decreases events.len(),
{
    if events.len() == 0 {
        true
    } else {
        all_served(step, v, events.drop_last()) && (events.last() is Rollback ==> can_serve(
            run(step, v, events.drop_last()),
        ))
    }
}

/// The first tick whose simulation is out of date: the pending rollback's
/// target, or the next tick where none is pending.
pub open spec fn stale_from(v: SessionView) -> Tick {
    match v.phase {
        Phase::RollbackPending { target } => target,
        _ => v.next_tick,
    }
}

/// That the snapshot of `t` is the step from the state before it, with the
/// best inputs of the confirmed frames as they stand.
pub open spec fn in_step(step: StepFn, v: SessionView, t: Tick) -> bool {
    &&& v.snapshots.contains_key(t)
    &&& v.base_of(t) is Some
    &&& v.snapshots[t] == step(v.base_of(t)->Some_0, step_frames(v.confirmed, v.actors, t))
}

/// That the history holds the last `history_len` ticks and no others.
pub open spec fn holds_recent(v: SessionView) -> bool {
    forall|t: Tick| #[trigger]
        v.snapshots.contains_key(t) <==> v.next_tick - v.history_len <= t < v.next_tick
}

/// That the record of what was used holds nothing older than the rollback
/// window of the last tick.
pub open spec fn records_recent(v: SessionView) -> bool {
    forall|k: FrameKey| #[trigger]
        v.used.contains_key(k) ==> k.1 >= v.next_tick - 1 - v.config.window()
}

/// That the session, between two frames, is in step with its confirmed
/// inputs: up to the first stale tick, each tick of the rollback window was
/// simulated with the best inputs of the confirmed frames as they stand now,
/// from the state that the tick before it had left. Only a session that
/// compares without tolerance can be in step: a tolerance lets a prediction
/// stand that is merely close to what was confirmed.
pub open spec fn consistent(step: StepFn, v: SessionView) -> bool {
    &&& v.wf()
    &&& v.tolerance == 0
    &&& v.phase is Idle || v.phase is RollbackPending
    &&& v.phase is RollbackPending ==> v.phase->target < v.next_tick
    &&& v.next_tick == 0 ==> v.live == v.initial
    &&& v.next_tick > 0 ==> v.live == v.snapshots[(v.next_tick - 1) as Tick]
    &&& holds_recent(v)
    &&& records_recent(v)
    &&& forall|t: Tick|
        v.next_tick - 1 - v.config.window() <= t < stale_from(v) ==> #[trigger] use_is_current(
            v,
            t,
        )
    &&& forall|t: Tick|
        v.next_tick - v.config.window() < t < stale_from(v) ==> #[trigger] in_step(step, v, t)
}

/// A history of more ticks than the policy lets a rollback replay serves
/// every rollback that the policy allows: the state to replay from is there.
pub proof fn law_history_serves_the_window(step: StepFn, v: SessionView)
    requires
        consistent(step, v),
        v.phase is RollbackPending,
        v.next_tick - v.phase->target <= v.config.max_prediction_ticks,
        v.history_len > v.config.max_prediction_ticks,
    ensures
        can_serve(v),
{
    let target = v.phase->target;
    if target > 0 {
        assert(v.snapshots.contains_key((target - 1) as Tick));
    }
}

/// A session is consistent when it starts.
pub proof fn law_start_is_consistent(
    step: StepFn,
    config: SessionConfig,
    history_len: nat,
    actors: Seq<ActorId>,
    local_actor: ActorId,
    entity_id: EntityId,
    initial: EntityState,
)
    requires
        config.valid(),
        history_len >= config.window(),
    ensures
        consistent(
            step,
            SessionView::start(config, history_len, 0, actors, local_actor, entity_id, initial),
        ),
{
}

/// In a consistent session without a pending rollback, the live state is
/// the replay of the ticks from any tick of the rollback window on, from the
/// state before that tick, with the best inputs of the confirmed frames.
pub proof fn law_consistent_state_is_replay(step: StepFn, v: SessionView, from: Tick)
    requires
        consistent(step, v),
        v.phase is Idle,
        v.next_tick - v.config.window() < from <= v.next_tick,
    ensures
        v.base_of(from) is Some,
        v.live == replay(
            step,
            v.confirmed,
            v.actors,
            v.base_of(from)->Some_0,
            from,
            v.next_tick,
        ),
    decreases v.next_tick - from,
{
    if from > 0 {
        assert(v.snapshots.contains_key((from - 1) as Tick));
    }
    if from < v.next_tick {
        assert(in_step(step, v, from));
        law_consistent_state_is_replay(step, v, (from + 1) as Tick);
    }
}

/// Convergence does not depend on how the session got there: two consistent
/// sessions without a pending rollback that hold the same confirmed frames,
/// have simulated the same number of ticks and agree on the state before
/// some tick of the rollback window have the same live state.
pub proof fn law_same_inputs_same_state(step: StepFn, a: SessionView, b: SessionView, from: Tick)
    requires
        consistent(step, a),
        consistent(step, b),
        a.phase is Idle,
        b.phase is Idle,
        a.confirmed == b.confirmed,
        a.actors == b.actors,
        a.config == b.config,
        a.next_tick == b.next_tick,
        a.next_tick - a.config.window() < from <= a.next_tick,
        a.base_of(from) == b.base_of(from),
    ensures
        a.live == b.live,
{
    law_consistent_state_is_replay(step, a, from);
    law_consistent_state_is_replay(step, b, from);
}

/// What a replay does to the history: the ticks before the awaited one stay
/// as they are, and each tick from the awaited one on is the step from the
/// state before it.
proof fn lemma_replay_snapshots(step: StepFn, v: SessionView)
    requires
        v.wf(),
        v.phase is Resimulating,
        holds_recent(v),
    ensures
        ({
            let done = resimulate(step, v);
            let tick = v.phase->tick;
            &&& holds_recent(done)
            &&& forall|t: Tick|
                v.next_tick - v.history_len <= t < tick ==> #[trigger] done.snapshots[t]
                    == v.snapshots[t]
            &&& forall|t: Tick|
                tick <= t < v.next_tick ==> #[trigger] done.snapshots[t] == step(
                    if t == tick {
                        v.working
                    } else {
                        done.snapshots[(t - 1) as Tick]
                    },
                    step_frames(v.confirmed, v.actors, t),
                )
        }),
    decreases v.next_tick - v.phase->tick,
{
    let tick = v.phase->tick;
    let state = step(v.working, step_frames(v.confirmed, v.actors, tick));
    let (after, directive) = v.complete_step(state);
    let done = resimulate(step, v);
    assert(done == resimulate(step, after));
    assert forall|t: Tick| v.next_tick - v.history_len <= t < v.next_tick implies (
    #[trigger] after.snapshots.contains_key(t)) && after.snapshots[t] == (if t == tick {
        state
    } else {
        v.snapshots[t]
    }) by {
        assert(v.snapshots.contains_key(t));
        if t != tick {
            lemma_near_ticks_have_different_slots(t, tick, v.history_len);
        }
    }
    assert forall|t: Tick| #[trigger] after.snapshots.contains_key(t) implies v.next_tick
        - v.history_len <= t < v.next_tick by {
        if t != tick {
            assert(v.snapshots.contains_key(t));
        }
    }
    if tick + 1 >= v.next_tick {
        assert(resimulate(step, after) == after);
        assert(holds_recent(done));
    } else {
        assert(holds_recent(after));
        lemma_replay_snapshots(step, after);
        assert(after.snapshots.contains_key(tick));
        assert(done.snapshots[tick] == after.snapshots[tick]);
        assert forall|t: Tick| v.next_tick - v.history_len <= t < tick implies #[trigger] done.snapshots[t]
            == v.snapshots[t] by {
            assert(after.snapshots.contains_key(t));
            assert(done.snapshots[t] == after.snapshots[t]);
        }
    }
}

/// A replay puts nothing on record but for the ticks it replays, and leaves
/// the record of the ticks before them as it is.
proof fn lemma_replay_record(step: StepFn, v: SessionView)
    requires
        v.wf(),
        v.phase is Resimulating,
    ensures
        ({
            let done = resimulate(step, v);
            &&& forall|k: FrameKey| #[trigger]
                done.used.contains_key(k) ==> v.used.contains_key(k) || v.phase->tick < k.1
                    < v.next_tick
            &&& forall|k: FrameKey|
                k.1 <= v.phase->tick && v.used.contains_key(k) ==> #[trigger] done.used.contains_key(
                    k,
                ) && done.used[k] == v.used[k]
        }),
    decreases v.next_tick - v.phase->tick,
{
    let tick = v.phase->tick;
    let state = step(v.working, step_frames(v.confirmed, v.actors, tick));
    let (after, directive) = v.complete_step(state);
    let done = resimulate(step, v);
    assert(done == resimulate(step, after));
    if tick + 1 >= v.next_tick {
        assert(resimulate(step, after) == after);
    } else {
        lemma_replay_record(step, after);
        assert forall|k: FrameKey| k.1 <= tick && v.used.contains_key(k) implies #[trigger] done.used.contains_key(
            k,
        ) && done.used[k] == v.used[k] by {
            assert(after.used.contains_key(k));
            assert(after.used[k] == v.used[k]);
            assert(k.1 <= after.phase->tick);
            assert(resimulate(step, after).used.contains_key(k));
        }
    }
}

/// Starting and replaying a rollback that can be served keeps the session
/// consistent, and leaves nothing stale.
pub proof fn law_rollback_keeps_consistent(step: StepFn, v: SessionView)
    requires
        consistent(step, v),
        can_serve(v),
    ensures
        consistent(step, apply(step, v, Event::Rollback)),
        apply(step, v, Event::Rollback).phase is Idle,
        same_setup(apply(step, v, Event::Rollback), v),
        apply(step, v, Event::Rollback).confirmed == v.confirmed,
        apply(step, v, Event::Rollback).next_tick == v.next_tick,
{
    let (started, directive) = v.begin_rollback();
    let done = resimulate(step, started);
    if v.phase is RollbackPending {
        let target = v.phase->target;
        let base = v.base_of(target)->Some_0;
        assert(use_is_current(started, target));
        law_resimulation_is_replay(step, started);
        assert(holds_recent(started));
        lemma_replay_snapshots(step, started);
        lemma_replay_record(step, started);
        assert forall|t: Tick| v.next_tick - 1 - v.config.window() <= t < stale_from(
            done,
        ) implies #[trigger] use_is_current(done, t) by {
            if t < target {
                assert(use_is_current(v, t));
                assert forall|a: ActorId| #[trigger] done.actors.contains(a) implies done.used.contains_key(
                    (a, t),
                ) && done.used[(a, t)] == best_input(done.confirmed, a, t).frame.action_vector by {
                    assert(v.actors.contains(a));
                    assert(started.used.contains_key((a, t)));
                    assert(done.used.contains_key((a, t)));
                }
            }
        }
        assert forall|t: Tick| v.next_tick - v.config.window() < t < stale_from(
            done,
        ) implies #[trigger] in_step(step, done, t) by {
            assert(done.snapshots.contains_key(t));
            if t > 0 {
                assert(done.snapshots.contains_key((t - 1) as Tick));
            }
            if t < target {
                assert(in_step(step, v, t));
                assert(v.snapshots.contains_key(t));
                assert(done.snapshots[t] == v.snapshots[t]);
                if t > 0 {
                    assert(v.snapshots.contains_key((t - 1) as Tick));
                    assert(done.snapshots[(t - 1) as Tick] == v.snapshots[(t - 1) as Tick]);
                }
            } else if t == target {
                if t > 0 {
                    assert(v.snapshots.contains_key((t - 1) as Tick));
                    assert(done.snapshots[(t - 1) as Tick] == v.snapshots[(t - 1) as Tick]);
                }
            }
        }
        assert forall|k: FrameKey| #[trigger] done.used.contains_key(k) implies k.1
            >= done.next_tick - 1 - done.config.window() by {
            if !started.used.contains_key(k) {
            } else if !v.used.contains_key(k) {
                assert(k.1 == target);
            }
        }
    } else {
        assert(done == v);
    }
}

/// Confirming for an actor what its tick was simulated with changes no best
/// input of that tick or a later one; confirming anything changes no best
/// input of an earlier tick, nor of another actor.
proof fn lemma_insert_keeps_best_input(
    confirmed: Frames,
    actor: ActorId,
    at: Tick,
    x: ActionEventData,
    a: ActorId,
    t: Tick,
)
    requires
        a != actor || t < at || best_input(confirmed, actor, at).frame.action_vector == x,
    ensures
        best_input(confirmed.insert((actor, at), x), a, t).frame == best_input(
            confirmed,
            a,
            t,
        ).frame,
    decreases t,
{
    let after = confirmed.insert((actor, at), x);
    if a != actor || t < at {
        assert(agree_up_to(after, confirmed, a, t));
        law_best_input_reads_the_past(after, confirmed, a, t);
    } else if t > at {
        if !confirmed.contains_key((a, t)) {
            law_best_input_is_held(confirmed, a, (t - 1) as Tick, t);
            law_best_input_is_held(after, a, (t - 1) as Tick, t);
            lemma_insert_keeps_best_input(confirmed, actor, at, x, a, (t - 1) as Tick);
        }
    }
}

/// Beginning a tick changes no best input of a tick of the rollback window.
proof fn lemma_begin_keeps_best_input(v: SessionView, sample: ActionEventData, a: ActorId, t: Tick)
    requires
        v.can_begin(),
        v.next_tick - v.config.window() <= t < v.next_tick,
    ensures
        best_input(v.begin_tick(sample).0.confirmed, a, t) == best_input(v.confirmed, a, t),
{
    let cutoff = eviction_cutoff(v.next_tick, v.config.window() as u32);
    let kept = kept_with_last(v.confirmed, cutoff);
    let begun = v.begin_tick(sample).0;
    law_eviction_keeps_predictions(v.confirmed, cutoff, a, t);
    assert(agree_up_to(begun.confirmed, kept, a, t));
    law_best_input_reads_the_past(begun.confirmed, kept, a, t);
}

/// A delivery keeps the session consistent.
pub proof fn law_delivery_keeps_consistent(
    step: StepFn,
    v: SessionView,
    actor_id: ActorId,
    tick: Tick,
    action_vector: ActionEventData,
)
    requires
        consistent(step, v),
    ensures
        consistent(step, apply(step, v, Event::Deliver { actor_id, tick, action_vector })),
        same_setup(apply(step, v, Event::Deliver { actor_id, tick, action_vector }), v),
{
    let after = apply(step, v, Event::Deliver { actor_id, tick, action_vector });
    if v.actors.contains(actor_id) {
        assert(after.confirmed == v.confirmed.insert((actor_id, tick), action_vector));
        assert(stale_from(after) <= stale_from(v));
        assert forall|a: ActorId, t: Tick| t < stale_from(after) implies #[trigger] best_input(
            after.confirmed,
            a,
            t,
        ).frame == best_input(v.confirmed, a, t).frame by {
            if a == actor_id && t >= tick {
                assert(v.used.contains_key((actor_id, tick)));
                lemma_action_close_without_tolerance(v.used[(actor_id, tick)], action_vector);
                assert(use_is_current(v, tick));
            }
            lemma_insert_keeps_best_input(v.confirmed, actor_id, tick, action_vector, a, t);
        }
        assert forall|t: Tick|
            after.next_tick - 1 - after.config.window() <= t < stale_from(
                after,
            ) implies #[trigger] use_is_current(after, t) by {
            assert(use_is_current(v, t));
            assert forall|a: ActorId| #[trigger] after.actors.contains(a) implies after.used.contains_key(
                (a, t),
            ) && after.used[(a, t)] == best_input(after.confirmed, a, t).frame.action_vector by {
                assert(best_input(after.confirmed, a, t).frame == best_input(
                    v.confirmed,
                    a,
                    t,
                ).frame);
            }
        }
        assert forall|t: Tick|
            after.next_tick - after.config.window() < t < stale_from(
                after,
            ) implies #[trigger] in_step(step, after, t) by {
            assert(in_step(step, v, t));
            assert forall|i: int| 0 <= i < v.actors.len() implies step_frames(
                after.confirmed,
                after.actors,
                t,
            )[i] == step_frames(v.confirmed, v.actors, t)[i] by {
                assert(best_input(after.confirmed, v.actors[i], t).frame == best_input(
                    v.confirmed,
                    v.actors[i],
                    t,
                ).frame);
            }
            assert(step_frames(after.confirmed, after.actors, t) =~= step_frames(
                v.confirmed,
                v.actors,
                t,
            ));
        }
    }
}

/// A tick keeps the session consistent.
pub proof fn law_tick_keeps_consistent(step: StepFn, v: SessionView, sample: ActionEventData)
    requires
        consistent(step, v),
    ensures
        consistent(step, apply(step, v, Event::Tick { sample })),
        same_setup(apply(step, v, Event::Tick { sample }), v),
{
    if v.can_begin() {
        let now = v.next_tick;
        let (begun, directive) = v.begin_tick(sample);
        let state = step(v.live, step_frames(begun.confirmed, begun.actors, now));
        let after = begun.complete_step(state).0;
        assert(after == apply(step, v, Event::Tick { sample }));
        let cutoff = eviction_cutoff(now, v.config.window() as u32);
        assert(cutoff == (if now >= v.config.window() {
            now - v.config.window()
        } else {
            0
        }));
        assert forall|t: Tick| #[trigger]
            after.snapshots.contains_key(t) <==> after.next_tick - after.history_len <= t
                < after.next_tick by {
            if t != now {
                if now - v.history_len <= t < now {
                    assert(v.snapshots.contains_key(t));
                    if t == now - v.history_len {
                        lemma_ticks_a_turn_apart_share_a_slot(t, now, v.history_len);
                    } else {
                        lemma_near_ticks_have_different_slots(t, now, v.history_len);
                    }
                } else {
                    assert(!v.snapshots.contains_key(t));
                }
            }
        }
        assert forall|t: Tick|
            after.next_tick - 1 - after.config.window() <= t < stale_from(
                after,
            ) implies #[trigger] use_is_current(after, t) by {
            if t < now {
                assert(use_is_current(v, t));
                assert forall|a: ActorId| #[trigger] after.actors.contains(a) implies after.used.contains_key(
                    (a, t),
                ) && after.used[(a, t)] == best_input(after.confirmed, a, t).frame.action_vector by {
                    assert(v.actors.contains(a));
                    lemma_begin_keeps_best_input(v, sample, a, t);
                }
            }
        }
        assert forall|t: Tick|
            after.next_tick - after.config.window() < t < stale_from(
                after,
            ) implies #[trigger] in_step(step, after, t) by {
            assert(after.snapshots.contains_key(t));
            if t > 0 {
                let before = (t - 1) as Tick;
                assert(after.snapshots.contains_key(before));
                assert(v.snapshots.contains_key(before));
                lemma_near_ticks_have_different_slots(before, now, v.history_len);
                assert(after.snapshots[before] == v.snapshots[before]);
            }
            if t < now {
                assert(in_step(step, v, t));
                lemma_near_ticks_have_different_slots(t, now, v.history_len);
                assert forall|i: int| 0 <= i < v.actors.len() implies step_frames(
                    after.confirmed,
                    after.actors,
                    t,
                )[i] == step_frames(v.confirmed, v.actors, t)[i] by {
                    lemma_begin_keeps_best_input(v, sample, v.actors[i], t);
                }
                assert(step_frames(after.confirmed, after.actors, t) =~= step_frames(
                    v.confirmed,
                    v.actors,
                    t,
                ));
            }
        }
    }
}

/// Convergence: a consistent session stays consistent through any run of
/// ticks, deliveries and rollbacks, in any order, as long as each rollback
/// can be served when it is started. With `law_consistent_state_is_replay`
/// and `law_same_inputs_same_state` this says that the order in which the
/// confirmed inputs arrived leaves no trace in the state.
pub proof fn law_runs_keep_consistent(step: StepFn, v: SessionView, events: Seq<Event>)
    requires
        consistent(step, v),
        all_served(step, v, events),
    ensures
        consistent(step, run(step, v, events)),
        same_setup(run(step, v, events), v),
    decreases events.len(),
{
    if events.len() > 0 {
        let earlier = events.drop_last();
        law_runs_keep_consistent(step, v, earlier);
        let before = run(step, v, earlier);
        match events.last() {
            Event::Tick { sample } => {
                law_tick_keeps_consistent(step, before, sample);
            },
            Event::Deliver { actor_id, tick, action_vector } => {
                law_delivery_keeps_consistent(step, before, actor_id, tick, action_vector);
            },
            Event::Rollback => {
                law_rollback_keeps_consistent(step, before);
            },
        }
    }
}

} // verus!
