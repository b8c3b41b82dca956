//! Deliveries of confirmed inputs, and why their order does not matter.

use vstd::prelude::*;
use crate::action::ActionEventData;
use crate::channel::RemoteUpdate;
use crate::frames::FrameKey;
use crate::laws::{resimulate, StepFn};
use crate::model::{contradicts, receive_all, SessionView};

verus! {

/// The actor and the tick that an input speaks of.
pub open spec fn input_key(update: RemoteUpdate) -> FrameKey {
    match update {
        RemoteUpdate::Input { actor_id, tick, action_vector } => (actor_id, tick),
        RemoteUpdate::AuthoritativeState { tick, entity_state } => (0, tick),
    }
}

/// The action vector that an input confirms.
pub open spec fn input_action(update: RemoteUpdate) -> ActionEventData {
    match update {
        RemoteUpdate::Input { actor_id, tick, action_vector } => action_vector,
        RemoteUpdate::AuthoritativeState { tick, entity_state } => ActionEventData::neutral_spec(),
    }
}

/// Whether the update is the input of an actor of the roster.
pub open spec fn is_accepted(v: SessionView, update: RemoteUpdate) -> bool {
    update is Input && v.actors.contains(input_key(update).0)
}

/// Whether the update is an input that contradicts what its tick was
/// simulated with.
pub open spec fn is_diverging(v: SessionView, update: RemoteUpdate) -> bool {
    &&& is_accepted(v, update)
    &&& input_key(update).1 < v.next_tick
    &&& contradicts(
        v.used,
        input_key(update).0,
        input_key(update).1,
        input_action(update),
        v.tolerance,
    )
}

/// That all updates are inputs and no two of them speak of the same actor
/// and tick.
pub open spec fn inputs_with_distinct_keys(updates: Seq<RemoteUpdate>) -> bool {
    &&& forall|i: int| 0 <= i < updates.len() ==> #[trigger] updates[i] is Input
    &&& forall|i: int, j: int|
        0 <= i < j < updates.len() ==> input_key(#[trigger] updates[i]) != input_key(
            #[trigger] updates[j],
        )
}

/// That each update of one sequence occurs in the other.
pub open spec fn same_elements(a: Seq<RemoteUpdate>, b: Seq<RemoteUpdate>) -> bool {
    &&& forall|i: int| 0 <= i < a.len() ==> b.contains(#[trigger] a[i])
    &&& forall|j: int| 0 <= j < b.len() ==> a.contains(#[trigger] b[j])
}

spec fn delivers(v: SessionView, updates: Seq<RemoteUpdate>, i: int, k: FrameKey) -> bool {
    0 <= i < updates.len() && is_accepted(v, updates[i]) && input_key(updates[i]) == k
}

spec fn diverges_at(v: SessionView, updates: Seq<RemoteUpdate>, i: int) -> bool {
    0 <= i < updates.len() && is_diverging(v, updates[i])
}

/// What a run of deliveries leaves untouched.
spec fn only_inputs_taken(v: SessionView, r: SessionView) -> bool {
    &&& r == SessionView { confirmed: r.confirmed, phase: r.phase, ..v }
    &&& (r.phase is Idle || r.phase is RollbackPending)
    &&& r.wf()
}

spec fn confirmed_as_delivered(v: SessionView, updates: Seq<RemoteUpdate>, r: SessionView) -> bool {
    &&& forall|k: FrameKey| #[trigger]
        r.confirmed.contains_key(k) <==> (v.confirmed.contains_key(k) || exists|i: int|
            delivers(v, updates, i, k))
    &&& forall|i: int, k: FrameKey| #[trigger]
        delivers(v, updates, i, k) ==> r.confirmed[k] == input_action(updates[i])
    &&& forall|k: FrameKey|
        !(exists|i: int| delivers(v, updates, i, k)) ==> #[trigger] r.confirmed[k]
            == v.confirmed[k]
}

spec fn target_as_delivered(v: SessionView, updates: Seq<RemoteUpdate>, r: SessionView) -> bool {
    &&& r.phase is Idle <==> (v.phase is Idle && forall|i: int| !diverges_at(v, updates, i))
    &&& r.phase is RollbackPending ==> {
        let target = r.phase->target;
        &&& v.phase is RollbackPending ==> target <= v.phase->target
        &&& forall|i: int| #[trigger]
            diverges_at(v, updates, i) ==> target <= input_key(updates[i]).1
        &&& (v.phase is RollbackPending && v.phase->target == target) || exists|i: int|
            diverges_at(v, updates, i) && input_key(updates[i]).1 == target
    }
}

proof fn lemma_deliveries_take_only_inputs(v: SessionView, updates: Seq<RemoteUpdate>)
    requires
        v.wf(),
        v.phase is Idle || v.phase is RollbackPending,
        inputs_with_distinct_keys(updates),
    ensures
        only_inputs_taken(v, receive_all(v, updates)),
    decreases updates.len(),
{
    if updates.len() > 0 {
        let init = updates.drop_last();
        assert forall|i: int| 0 <= i < init.len() implies #[trigger] init[i] is Input by {
            assert(init[i] == updates[i]);
        }
        assert forall|i: int, j: int| 0 <= i < j < init.len() implies input_key(
            #[trigger] init[i],
        ) != input_key(#[trigger] init[j]) by {
            assert(init[i] == updates[i] && init[j] == updates[j]);
        }
        lemma_deliveries_take_only_inputs(v, init);
        assert(updates.last() is Input);
    }
}

proof fn lemma_confirmed_as_delivered(v: SessionView, updates: Seq<RemoteUpdate>)
    requires
        v.wf(),
        v.phase is Idle || v.phase is RollbackPending,
        inputs_with_distinct_keys(updates),
    ensures
        confirmed_as_delivered(v, updates, receive_all(v, updates)),
    decreases updates.len(),
{
    let r = receive_all(v, updates);
    if updates.len() > 0 {
        let init = updates.drop_last();
        let last = updates.last();
        let n = init.len() as int;
        assert forall|i: int| 0 <= i < init.len() implies #[trigger] init[i] is Input by {
            assert(init[i] == updates[i]);
        }
        assert forall|i: int, j: int| 0 <= i < j < init.len() implies input_key(
            #[trigger] init[i],
        ) != input_key(#[trigger] init[j]) by {
            assert(init[i] == updates[i] && init[j] == updates[j]);
        }
        lemma_deliveries_take_only_inputs(v, init);
        lemma_confirmed_as_delivered(v, init);
        let r0 = receive_all(v, init);
        assert(r == r0.receive(last).0);
        assert(updates[n] == last);
        assert(last is Input);
        assert(is_accepted(r0, last) == is_accepted(v, last));
        assert forall|i: int, k: FrameKey| delivers(v, init, i, k) implies delivers(
            v,
            updates,
            i,
            k,
        ) by {
            assert(init[i] == updates[i]);
        }
        assert forall|i: int, k: FrameKey| delivers(v, updates, i, k) implies (i == n && k
            == input_key(last) && is_accepted(v, last)) || (delivers(v, init, i, k) && k
            != input_key(last)) by {
            if i < n {
                assert(init[i] == updates[i]);
                assert(input_key(updates[i]) != input_key(updates[n]));
            }
        }
        assert forall|k: FrameKey| #[trigger]
            r.confirmed.contains_key(k) <==> (v.confirmed.contains_key(k) || exists|i: int|
                delivers(v, updates, i, k)) by {
            if r.confirmed.contains_key(k) {
                if r0.confirmed.contains_key(k) {
                    if !v.confirmed.contains_key(k) {
                        let i = choose|i: int| delivers(v, init, i, k);
                        assert(delivers(v, updates, i, k));
                    }
                } else {
                    assert(delivers(v, updates, n, k));
                }
            }
            if exists|i: int| delivers(v, updates, i, k) {
                let i = choose|i: int| delivers(v, updates, i, k);
                if i < n {
                    assert(delivers(v, init, i, k));
                    assert(r0.confirmed.contains_key(k));
                }
            }
        }
        assert forall|i: int, k: FrameKey| #[trigger] delivers(v, updates, i, k) implies r.confirmed[k]
            == input_action(updates[i]) by {
            if i < n {
                assert(delivers(v, init, i, k));
                assert(init[i] == updates[i]);
            }
        }
        assert forall|k: FrameKey| !(exists|i: int| delivers(v, updates, i, k)) implies #[trigger] r.confirmed[k]
            == v.confirmed[k] by {
            assert(!delivers(v, updates, n, k));
            assert forall|i: int| !delivers(v, init, i, k) by {
                if delivers(v, init, i, k) {
                    assert(delivers(v, updates, i, k));
                }
            }
        }
    } else {
        assert forall|i: int, k: FrameKey| !delivers(v, updates, i, k) by {}
    }
}

proof fn lemma_target_as_delivered(v: SessionView, updates: Seq<RemoteUpdate>)
    requires
        v.wf(),
        v.phase is Idle || v.phase is RollbackPending,
        inputs_with_distinct_keys(updates),
    ensures
        target_as_delivered(v, updates, receive_all(v, updates)),
    decreases updates.len(),
{
    let r = receive_all(v, updates);
    if updates.len() > 0 {
        let init = updates.drop_last();
        let last = updates.last();
        let n = init.len() as int;
        assert forall|i: int| 0 <= i < init.len() implies #[trigger] init[i] is Input by {
            assert(init[i] == updates[i]);
        }
        assert forall|i: int, j: int| 0 <= i < j < init.len() implies input_key(
            #[trigger] init[i],
        ) != input_key(#[trigger] init[j]) by {
            assert(init[i] == updates[i] && init[j] == updates[j]);
        }
        lemma_deliveries_take_only_inputs(v, init);
        lemma_target_as_delivered(v, init);
        let r0 = receive_all(v, init);
        assert(r == r0.receive(last).0);
        assert(updates[n] == last);
        assert(last is Input);
        assert(is_diverging(r0, last) == is_diverging(v, last));
        assert forall|i: int| diverges_at(v, updates, i) <==> (i == n && is_diverging(v, last))
            || diverges_at(v, init, i) by {
            if 0 <= i < n {
                assert(init[i] == updates[i]);
            }
        }
        if r.phase is RollbackPending {
            let target = r.phase->target;
            if is_diverging(v, last) {
                if target == input_key(last).1 {
                    assert(diverges_at(v, updates, n));
                } else {
                    assert(r0.phase is RollbackPending && r0.phase->target == target);
                    if !(v.phase is RollbackPending && v.phase->target == target) {
                        let i = choose|i: int|
                            diverges_at(v, init, i) && input_key(init[i]).1 == target;
                        assert(init[i] == updates[i]);
                        assert(diverges_at(v, updates, i));
                    }
                }
            } else {
                assert(r0.phase == r.phase);
                if !(v.phase is RollbackPending && v.phase->target == target) {
                    let i = choose|i: int|
                        diverges_at(v, init, i) && input_key(init[i]).1 == target;
                    assert(init[i] == updates[i]);
                    assert(diverges_at(v, updates, i));
                }
            }
            assert forall|i: int| #[trigger] diverges_at(v, updates, i) implies target <= input_key(
                updates[i],
            ).1 by {
                if i < n {
                    assert(diverges_at(v, init, i));
                    assert(init[i] == updates[i]);
                }
            }
        } else {
            assert forall|i: int| !diverges_at(v, updates, i) by {
                if diverges_at(v, updates, i) && i < n {
                    assert(diverges_at(v, init, i));
                }
            }
        }
        if v.phase is Idle && (forall|i: int| !diverges_at(v, updates, i)) {
            assert forall|i: int| !diverges_at(v, init, i) by {
                if diverges_at(v, init, i) {
                    assert(diverges_at(v, updates, i));
                }
            }
            assert(!diverges_at(v, updates, n));
        }
    } else {
        assert forall|i: int| !diverges_at(v, updates, i) by {}
    }
}

/// Order independence: two runs of deliveries that hold the same confirmed
/// inputs, each actor and tick at most once, leave the session in the same
/// state, whatever the order of either. The rollback that is then pending
/// is the same, and so is every state that its replay produces.
pub proof fn law_delivery_order_is_immaterial(
    step: StepFn,
    v: SessionView,
    a: Seq<RemoteUpdate>,
    b: Seq<RemoteUpdate>,
)
    requires
        v.wf(),
        v.phase is Idle || v.phase is RollbackPending,
        inputs_with_distinct_keys(a),
        inputs_with_distinct_keys(b),
        same_elements(a, b),
    ensures
        receive_all(v, a) == receive_all(v, b),
        resimulate(step, receive_all(v, a).begin_rollback().0) == resimulate(
            step,
            receive_all(v, b).begin_rollback().0,
        ),
{
    let ra = receive_all(v, a);
    let rb = receive_all(v, b);
    lemma_deliveries_take_only_inputs(v, a);
    lemma_deliveries_take_only_inputs(v, b);
    lemma_confirmed_as_delivered(v, a);
    lemma_confirmed_as_delivered(v, b);
    lemma_target_as_delivered(v, a);
    lemma_target_as_delivered(v, b);
    lemma_same_deliveries(v, a, b);
    lemma_same_deliveries(v, b, a);
    assert forall|k: FrameKey| ra.confirmed.contains_key(k) == rb.confirmed.contains_key(k) by {
        if exists|i: int| delivers(v, a, i, k) {
            let i = choose|i: int| delivers(v, a, i, k);
            let j = choose|j: int| delivers(v, b, j, k) && b[j] == a[i];
            assert(delivers(v, b, j, k));
        }
        if exists|j: int| delivers(v, b, j, k) {
            let j = choose|j: int| delivers(v, b, j, k);
            let i = choose|i: int| delivers(v, a, i, k) && a[i] == b[j];
            assert(delivers(v, a, i, k));
        }
    }
    assert forall|k: FrameKey| ra.confirmed.contains_key(k) implies ra.confirmed[k]
        == rb.confirmed[k] by {
        if exists|i: int| delivers(v, a, i, k) {
            let i = choose|i: int| delivers(v, a, i, k);
            let j = choose|j: int| delivers(v, b, j, k) && b[j] == a[i];
            assert(delivers(v, b, j, k));
        } else {
            assert forall|j: int| !delivers(v, b, j, k) by {
                if delivers(v, b, j, k) {
                    let i = choose|i: int| delivers(v, a, i, k) && a[i] == b[j];
                    assert(delivers(v, a, i, k));
                }
            }
        }
    }
    assert(ra.confirmed =~= rb.confirmed);
    lemma_same_target(v, a, b, ra, rb);
    lemma_same_target(v, b, a, rb, ra);
    assert(ra.phase == rb.phase);
}

proof fn lemma_same_deliveries(v: SessionView, a: Seq<RemoteUpdate>, b: Seq<RemoteUpdate>)
    requires
        same_elements(a, b),
    ensures
        forall|i: int, k: FrameKey| #[trigger]
            delivers(v, a, i, k) ==> exists|j: int| delivers(v, b, j, k) && b[j] == a[i],
        forall|i: int| #[trigger]
            diverges_at(v, a, i) ==> exists|j: int| diverges_at(v, b, j) && b[j] == a[i],
{
    assert forall|i: int, k: FrameKey| #[trigger] delivers(v, a, i, k) implies exists|j: int|
        delivers(v, b, j, k) && b[j] == a[i] by {
        assert(b.contains(a[i]));
        let j = choose|j: int| 0 <= j < b.len() && b[j] == a[i];
        assert(delivers(v, b, j, k) && b[j] == a[i]);
    }
    assert forall|i: int| #[trigger] diverges_at(v, a, i) implies exists|j: int|
        diverges_at(v, b, j) && b[j] == a[i] by {
        assert(b.contains(a[i]));
        let j = choose|j: int| 0 <= j < b.len() && b[j] == a[i];
        assert(diverges_at(v, b, j) && b[j] == a[i]);
    }
}

proof fn lemma_same_target(
    v: SessionView,
    a: Seq<RemoteUpdate>,
    b: Seq<RemoteUpdate>,
    ra: SessionView,
    rb: SessionView,
)
    requires
        target_as_delivered(v, a, ra),
        target_as_delivered(v, b, rb),
        ra.phase is Idle || ra.phase is RollbackPending,
        rb.phase is Idle || rb.phase is RollbackPending,
        forall|i: int| #[trigger]
            diverges_at(v, a, i) ==> exists|j: int| diverges_at(v, b, j) && b[j] == a[i],
        forall|j: int| #[trigger]
            diverges_at(v, b, j) ==> exists|i: int| diverges_at(v, a, i) && a[i] == b[j],
    ensures
        ra.phase is Idle ==> rb.phase is Idle,
        ra.phase is RollbackPending && rb.phase is RollbackPending ==> rb.phase->target
            <= ra.phase->target,
{
    if ra.phase is Idle {
        assert forall|j: int| !diverges_at(v, b, j) by {
            if diverges_at(v, b, j) {
                let i = choose|i: int| diverges_at(v, a, i) && a[i] == b[j];
                assert(diverges_at(v, a, i));
            }
        }
    }
    if ra.phase is RollbackPending && rb.phase is RollbackPending {
        let ta = ra.phase->target;
        if !(v.phase is RollbackPending && v.phase->target == ta) {
            let i = choose|i: int| diverges_at(v, a, i) && input_key(a[i]).1 == ta;
            let j = choose|j: int| diverges_at(v, b, j) && b[j] == a[i];
            assert(diverges_at(v, b, j));
        }
    }
}

} // verus!
