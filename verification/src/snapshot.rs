//! The bounded history of an entity's simulated state.
//!
//! The store is a ring of `capacity` slots; the snapshot of tick `t` lives in
//! slot `t mod capacity` and carries its tick, so that a slot which a later
//! tick has taken over is never mistaken for the earlier one.

use vstd::prelude::*;
use crate::config::ConfigError;
use crate::entity::{EntityId, EntityState, Tick};

verus! {

/// The state of one entity after one tick.
#[derive(Clone, Copy, PartialEq, Eq, Structural, Debug)]
pub struct Snapshot {
    pub tick: Tick,
    pub entity_id: EntityId,
    pub state: EntityState,
}

pub struct SnapshotStore {
    entity_id: EntityId,
    slots: Vec<Option<Snapshot>>,
}

/// What a history of `capacity` slots holds after the state of `tick` was
/// saved into it: `tick` maps to `state`, every other tick of the same slot
/// is gone, and the rest is as before.
pub open spec fn saved(
    history: Map<Tick, EntityState>,
    capacity: nat,
    tick: Tick,
    state: EntityState,
) -> Map<Tick, EntityState> {
    Map::new(
        |t: Tick|
            t == tick || (history.dom().contains(t) && t as nat % capacity != tick as nat
                % capacity),
        |t: Tick|
            if t == tick {
                state
            } else {
                history[t]
            },
    )
}

/// What a history holds after a run of saves, made in the order of `entries`.
pub open spec fn saved_all(
    history: Map<Tick, EntityState>,
    capacity: nat,
    entries: Seq<(Tick, EntityState)>,
) -> Map<Tick, EntityState>
    decreases entries.len(),
{
    if entries.len() == 0 {
        history
    } else {
        saved(
            saved_all(history, capacity, entries.drop_last()),
            capacity,
            entries.last().0,
            entries.last().1,
        )
    }
}

/// The ticks `first`, `first + 1`, ... in this order, each with a state.
pub open spec fn consecutive(entries: Seq<(Tick, EntityState)>, first: Tick) -> bool {
    forall|k: int| 0 <= k < entries.len() ==> (#[trigger] entries[k]).0 == first + k
}

/// A state that was saved is loaded again unchanged, as long as no later save
/// has taken its slot.
pub proof fn law_saved_state_is_loaded(
    history: Map<Tick, EntityState>,
    capacity: nat,
    entries: Seq<(Tick, EntityState)>,
    i: int,
)
    requires
        capacity >= 1,
        0 <= i < entries.len(),
        forall|j: int|
            i < j < entries.len() ==> (#[trigger] entries[j]).0 as nat % capacity != entries[i].0
                as nat % capacity,
    ensures
        saved_all(history, capacity, entries).dom().contains(entries[i].0),
        saved_all(history, capacity, entries)[entries[i].0] == entries[i].1,
    decreases entries.len(),
{
    if i < entries.len() - 1 {
        let earlier = entries.drop_last();
        assert(earlier[i] == entries[i]);
        assert forall|j: int| i < j < earlier.len() implies (#[trigger] earlier[j]).0 as nat
            % capacity != earlier[i].0 as nat % capacity by {
            assert(earlier[j] == entries[j]);
        }
        law_saved_state_is_loaded(history, capacity, earlier, i);
        assert(entries[entries.len() - 1].0 as nat % capacity != entries[i].0 as nat % capacity);
    }
}

/// Once a different tick has been saved into the slot of `tick`, and `tick`
/// itself was not saved again, `tick` cannot be loaded: the store never
/// answers with the state of another tick.
pub proof fn law_overwritten_tick_is_evicted(
    history: Map<Tick, EntityState>,
    capacity: nat,
    entries: Seq<(Tick, EntityState)>,
    tick: Tick,
    j: int,
)
    requires
        capacity >= 1,
        0 <= j < entries.len(),
        entries[j].0 != tick,
        entries[j].0 as nat % capacity == tick as nat % capacity,
        forall|k: int| j < k < entries.len() ==> (#[trigger] entries[k]).0 != tick,
    ensures
        !saved_all(history, capacity, entries).dom().contains(tick),
    decreases entries.len(),
{
    if j < entries.len() - 1 {
        let earlier = entries.drop_last();
        assert(earlier[j] == entries[j]);
        assert forall|k: int| j < k < earlier.len() implies (#[trigger] earlier[k]).0 != tick by {
            assert(earlier[k] == entries[k]);
        }
        law_overwritten_tick_is_evicted(history, capacity, earlier, tick, j);
        assert(entries[entries.len() - 1].0 != tick);
    }
}

/// After the ticks `first`, `first + 1`, ... were saved one after the other,
/// each of the last `capacity` of them is loaded with the state it was saved
/// with, and each earlier one is evicted.
pub proof fn law_window_of_consecutive_saves(
    history: Map<Tick, EntityState>,
    capacity: nat,
    entries: Seq<(Tick, EntityState)>,
    first: Tick,
    i: int,
)
    requires
        capacity >= 1,
        0 <= i < entries.len(),
        consecutive(entries, first),
    ensures
        entries.len() - i <= capacity ==> saved_all(history, capacity, entries).dom().contains(
            entries[i].0,
        ) && saved_all(history, capacity, entries)[entries[i].0] == entries[i].1,
        entries.len() - i > capacity ==> !saved_all(history, capacity, entries).dom().contains(
            entries[i].0,
        ),
{
    let tick = entries[i].0;
    assert(tick == first + i);
    if entries.len() - i <= capacity {
        assert forall|j: int| i < j < entries.len() implies (#[trigger] entries[j]).0 as nat
            % capacity != tick as nat % capacity by {
            assert(entries[j].0 == first + j);
            lemma_shifted_slot_differs(tick as nat, (j - i) as nat, capacity);
        }
        law_saved_state_is_loaded(history, capacity, entries, i);
    } else {
        let j = i + capacity;
        assert(entries[j].0 == first + j);
        lemma_full_turn_same_slot(tick as nat, capacity);
        assert forall|k: int| j < k < entries.len() implies (#[trigger] entries[k]).0 != tick by {
            assert(entries[k].0 == first + k);
        }
        law_overwritten_tick_is_evicted(history, capacity, entries, tick, j);
    }
}

/// Two different ticks that lie less than `capacity` apart have different
/// slots: saving one leaves the other in the history.
pub proof fn lemma_near_ticks_have_different_slots(a: Tick, b: Tick, capacity: nat)
    requires
        a != b,
        a - b < capacity,
        b - a < capacity,
    ensures
        a as nat % capacity != b as nat % capacity,
{
    if a < b {
        lemma_shifted_slot_differs(a as nat, (b - a) as nat, capacity);
    } else {
        lemma_shifted_slot_differs(b as nat, (a - b) as nat, capacity);
    }
}

proof fn lemma_shifted_slot_differs(x: nat, d: nat, n: nat)
    requires
        0 < d < n,
    ensures
        (x + d) % n != x % n,
{
    vstd::arithmetic::div_mod::lemma_fundamental_div_mod(x as int, n as int);
    vstd::arithmetic::div_mod::lemma_fundamental_div_mod((x + d) as int, n as int);
    let q1 = x as int / n as int;
    let q2 = (x + d) as int / n as int;
    if (x + d) % n == x % n {
        assert(n * q2 - n * q1 == d);
        assert(n * (q2 - q1) == d) by (nonlinear_arith)
            requires
                n * q2 - n * q1 == d,
        ;
        assert(false) by (nonlinear_arith)
            requires
                n * (q2 - q1) == d,
                0 < d < n,
        ;
    }
}

/// Two ticks that lie exactly `capacity` apart have the same slot: saving
/// the later one evicts the earlier one.
pub proof fn lemma_ticks_a_turn_apart_share_a_slot(a: Tick, b: Tick, capacity: nat)
    requires
        capacity >= 1,
        b == a + capacity,
    ensures
        a as nat % capacity == b as nat % capacity,
{
    lemma_full_turn_same_slot(a as nat, capacity);
}

proof fn lemma_full_turn_same_slot(x: nat, n: nat)
    requires
        n >= 1,
    ensures
        (x + n) % n == x % n,
{
    vstd::arithmetic::div_mod::lemma_mod_add_multiples_vanish(x as int, n as int);
}

impl View for SnapshotStore {
    type V = Map<Tick, EntityState>;

    /// The ticks that can be loaded, each with its state.
    closed spec fn view(&self) -> Map<Tick, EntityState> {
        Map::new(
            |t: Tick| self.holds(t),
            |t: Tick| self.slots@[(t as nat % self.slots@.len()) as int]->Some_0.state,
        )
    }
}

impl SnapshotStore {
    spec fn holds(&self, t: Tick) -> bool {
        let slot = self.slots@[(t as nat % self.slots@.len()) as int];
        slot is Some && slot->Some_0.tick == t
    }

    pub closed spec fn wf(&self) -> bool {
        self.slots@.len() >= 1
    }

    /// The number of slots.
    pub closed spec fn capacity(&self) -> nat {
        self.slots@.len()
    }

    /// The entity whose states the store holds.
    pub closed spec fn entity(&self) -> EntityId {
        self.entity_id
    }

    /// An empty store of `capacity` slots.
    pub fn new(entity_id: EntityId, capacity: usize) -> (r: Result<SnapshotStore, ConfigError>)
        ensures
            capacity == 0 <==> r == Err::<SnapshotStore, ConfigError>(
                ConfigError::HistoryTooShort,
            ),
            capacity > 0 ==> r is Ok && r->Ok_0.wf() && r->Ok_0.capacity() == capacity
                && r->Ok_0.entity() == entity_id && r->Ok_0@ == Map::<Tick, EntityState>::empty(),
    {
        if capacity == 0 {
            return Err(ConfigError::HistoryTooShort);
        }
        let mut slots: Vec<Option<Snapshot>> = Vec::new();
        let mut i: usize = 0;
        while i < capacity
            invariant
                i <= capacity,
                slots@.len() == i,
                forall|j: int| 0 <= j < i ==> slots@[j] is None,
            decreases capacity - i,
        {
            slots.push(None);
            i = i + 1;
        }
        let store = SnapshotStore { entity_id, slots };
        assert(store@ =~= Map::<Tick, EntityState>::empty());
        Ok(store)
    }

    /// Stores the state of `tick`, in place of whatever its slot held.
    pub fn save(&mut self, tick: Tick, state: EntityState)
        requires
            old(self).wf(),
        ensures
            final(self).wf(),
            final(self).capacity() == old(self).capacity(),
            final(self).entity() == old(self).entity(),
            final(self)@ == saved(old(self)@, old(self).capacity(), tick, state),
    {
        let n: usize = self.slots.len();
        let index: usize = (tick % (n as u64)) as usize;
        let entity_id: EntityId = self.entity_id;
        self.slots[index] = Some(Snapshot { tick, entity_id, state });
        assert(final(self)@ =~= saved(old(self)@, old(self).capacity(), tick, state));
    }

    /// The state of `tick`, or `None` where the store does not hold it:
    /// because it was never saved, or because a later tick took its slot.
    pub fn load(&self, tick: Tick) -> (r: Option<EntityState>)
        requires
            self.wf(),
        ensures
            r == (if self@.dom().contains(tick) {
                Some(self@[tick])
            } else {
                None::<EntityState>
            }),
    {
        let n: usize = self.slots.len();
        let index: usize = (tick % (n as u64)) as usize;
        match self.slots[index] {
            Some(snapshot) => {
                if snapshot.tick == tick {
                    Some(snapshot.state)
                } else {
                    None
                }
            },
            None => None,
        }
    }

    /// As `load`, with the tick and the entity that the state belongs to.
    pub fn snapshot(&self, tick: Tick) -> (r: Option<Snapshot>)
        requires
            self.wf(),
        ensures
            r == (if self@.dom().contains(tick) {
                Some(Snapshot { tick, entity_id: self.entity(), state: self@[tick] })
            } else {
                None::<Snapshot>
            }),
    {
        match self.load(tick) {
            Some(state) => Some(Snapshot { tick, entity_id: self.entity_id, state }),
            None => None,
        }
    }

    pub fn slot_count(&self) -> (n: usize)
        ensures
            n == self.capacity(),
    {
        self.slots.len()
    }

    pub fn entity_id(&self) -> (id: EntityId)
        ensures
            id == self.entity(),
    {
        self.entity_id
    }
}

} // verus!
