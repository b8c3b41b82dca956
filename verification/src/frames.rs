//! Input frames and a table of them, keyed by actor and tick.

use vstd::prelude::*;
use crate::action::ActionEventData;
use crate::entity::{ActorId, Tick};

verus! {

/// What one actor did during one tick.
#[derive(Clone, Copy, PartialEq, Eq, Structural, Debug)]
pub struct InputFrame {
    pub tick: Tick,
    pub actor_id: ActorId,
    pub action_vector: ActionEventData,
}

/// The key of a frame: its actor, then its tick.
pub type FrameKey = (ActorId, Tick);

/// The contents of a table: at most one action vector per actor and tick.
pub type Frames = Map<FrameKey, ActionEventData>;

impl InputFrame {
    pub open spec fn key(self) -> FrameKey {
        (self.actor_id, self.tick)
    }
}

/// Whether `t` is the last tick up to `tick` for which `frames` holds a
/// frame of `actor`.
pub open spec fn is_latest(frames: Frames, actor: ActorId, tick: Tick, t: Tick) -> bool {
    &&& frames.contains_key((actor, t))
    &&& t <= tick
    &&& forall|u: Tick| #[trigger] frames.contains_key((actor, u)) && u <= tick ==> u <= t
}

/// The frames of `frames` whose tick is `cutoff` or later.
pub open spec fn kept_from(frames: Frames, cutoff: Tick) -> Frames {
    Map::new(|k: FrameKey| frames.contains_key(k) && k.1 >= cutoff, |k: FrameKey| frames[k])
}

/// Whether the frame of `k` is its actor's last one before `cutoff`.
pub open spec fn is_last_before(frames: Frames, cutoff: Tick, k: FrameKey) -> bool {
    cutoff > 0 && is_latest(frames, k.0, (cutoff - 1) as Tick, k.1)
}

/// The frames of `frames` whose tick is `cutoff` or later, and of each actor
/// the last frame before `cutoff`.
pub open spec fn kept_with_last(frames: Frames, cutoff: Tick) -> Frames {
    Map::new(
        |k: FrameKey| frames.contains_key(k) && (k.1 >= cutoff || is_last_before(frames, cutoff, k)),
        |k: FrameKey| frames[k],
    )
}

/// What an eviction at `cutoff` keeps, with or without each actor's last
/// frame before it.
pub open spec fn kept(frames: Frames, cutoff: Tick, with_last: bool) -> Frames {
    if with_last {
        kept_with_last(frames, cutoff)
    } else {
        kept_from(frames, cutoff)
    }
}

/// For one actor and one tick there is at most one latest frame.
pub proof fn lemma_latest_is_unique(frames: Frames, actor: ActorId, tick: Tick, a: Tick, b: Tick)
    requires
        is_latest(frames, actor, tick, a),
        is_latest(frames, actor, tick, b),
    ensures
        a == b,
{
}

pub struct FrameTable {
    frames: Vec<InputFrame>,
    model: Ghost<Frames>,
}

impl View for FrameTable {
    type V = Frames;

    closed spec fn view(&self) -> Frames {
        self.model@
    }
}

impl FrameTable {
    pub closed spec fn wf(&self) -> bool {
        &&& forall|i: int|
            0 <= i < self.frames@.len() ==> self.model@.contains_key(
                (#[trigger] self.frames@[i]).key(),
            ) && self.model@[self.frames@[i].key()] == self.frames@[i].action_vector
        &&& forall|k: FrameKey| #[trigger]
            self.model@.contains_key(k) ==> exists|i: int|
                0 <= i < self.frames@.len() && (#[trigger] self.frames@[i]).key() == k
        &&& forall|i: int, j: int|
            0 <= i < j < self.frames@.len() ==> (#[trigger] self.frames@[i]).key() != (
            #[trigger] self.frames@[j]).key()
    }

    /// An empty table.
    pub fn new() -> (table: FrameTable)
        ensures
            table.wf(),
            table@ == Frames::empty(),
    {
        FrameTable { frames: Vec::new(), model: Ghost(Map::empty()) }
    }

    fn find(&self, actor_id: ActorId, tick: Tick) -> (r: Option<usize>)
        requires
            self.wf(),
        ensures
            match r {
                Some(i) => i < self.frames@.len() && self.frames@[i as int].key() == (
                    actor_id,
                    tick,
                ),
                None => !self@.contains_key((actor_id, tick)),
            },
    {
        let mut i: usize = 0;
        while i < self.frames.len()
            invariant
                i <= self.frames@.len(),
                forall|j: int| 0 <= j < i ==> (#[trigger] self.frames@[j]).key() != (actor_id, tick),
            decreases self.frames@.len() - i,
        {
            if self.frames[i].actor_id == actor_id && self.frames[i].tick == tick {
                return Some(i);
            }
            i = i + 1;
        }
        None
    }

    /// The action vector of `actor_id` at `tick`, if the table holds one.
    pub fn get(&self, actor_id: ActorId, tick: Tick) -> (r: Option<ActionEventData>)
        requires
            self.wf(),
        ensures
            r == (if self@.contains_key((actor_id, tick)) {
                Some(self@[(actor_id, tick)])
            } else {
                None::<ActionEventData>
            }),
    {
        match self.find(actor_id, tick) {
            Some(i) => Some(self.frames[i].action_vector),
            None => None,
        }
    }

    /// Puts a frame into the table, in place of the one with the same actor
    /// and tick if there is one.
    pub fn insert(&mut self, frame: InputFrame)
        requires
            old(self).wf(),
        ensures
            final(self).wf(),
            final(self)@ == old(self)@.insert(frame.key(), frame.action_vector),
    {
        let found: Option<usize> = self.find(frame.actor_id, frame.tick);
        match found {
            Some(i) => {
                self.frames[i] = frame;
            },
            None => {
                self.frames.push(frame);
            },
        }
        self.model = Ghost(self.model@.insert(frame.key(), frame.action_vector));
        proof {
            let n = old(self).frames@.len();
            assert forall|k: FrameKey| #[trigger] self.model@.contains_key(k) implies exists|
                i: int,
            |
                0 <= i < self.frames@.len() && (#[trigger] self.frames@[i]).key() == k by {
                if k == frame.key() {
                    match found {
                        Some(i) => {
                            assert(self.frames@[i as int].key() == k);
                        },
                        None => {
                            assert(self.frames@[n as int].key() == k);
                        },
                    }
                } else {
                    assert(old(self).model@.contains_key(k));
                    let i = choose|i: int|
                        0 <= i < n && (#[trigger] old(self).frames@[i]).key() == k;
                    assert(self.frames@[i].key() == k);
                }
            }
        }
    }

    /// The frame of `actor_id` with the last tick up to `tick`, if the table
    /// holds a frame of that actor at or before `tick`.
    pub fn latest_up_to(&self, actor_id: ActorId, tick: Tick) -> (r: Option<InputFrame>)
        requires
            self.wf(),
        ensures
            match r {
                Some(frame) => frame.actor_id == actor_id && is_latest(
                    self@,
                    actor_id,
                    tick,
                    frame.tick,
                ) && frame.action_vector == self@[(actor_id, frame.tick)],
                None => forall|t: Tick| #[trigger]
                    self@.contains_key((actor_id, t)) ==> t > tick,
            },
    {
        let mut best: Option<InputFrame> = None;
        let mut i: usize = 0;
        while i < self.frames.len()
            invariant
                self.wf(),
                i <= self.frames@.len(),
                match best {
                    Some(frame) => frame.actor_id == actor_id && frame.tick <= tick
                        && self@.contains_key((actor_id, frame.tick))
                        && frame.action_vector == self@[(actor_id, frame.tick)]
                        && forall|j: int|
                        0 <= j < i && (#[trigger] self.frames@[j]).actor_id == actor_id
                            && self.frames@[j].tick <= tick ==> self.frames@[j].tick
                            <= frame.tick,
                    None => forall|j: int|
                        0 <= j < i && (#[trigger] self.frames@[j]).actor_id == actor_id
                            ==> self.frames@[j].tick > tick,
                },
            decreases self.frames@.len() - i,
        {
            let frame: InputFrame = self.frames[i];
            assert(frame.key() == self.frames@[i as int].key());
            if frame.actor_id == actor_id && frame.tick <= tick {
                let better: bool = match best {
                    Some(b) => b.tick < frame.tick,
                    None => true,
                };
                if better {
                    best = Some(frame);
                }
            }
            i = i + 1;
        }
        proof {
            match best {
                Some(frame) => {
                    assert forall|u: Tick| #[trigger]
                        self@.contains_key((actor_id, u)) && u <= tick implies u
                        <= frame.tick by {
                        let j = choose|j: int|
                            0 <= j < self.frames@.len() && (#[trigger] self.frames@[j]).key() == (
                                actor_id,
                                u,
                            );
                        assert(self.frames@[j].actor_id == actor_id);
                    }
                },
                None => {
                    assert forall|t: Tick| #[trigger]
                        self@.contains_key((actor_id, t)) implies t > tick by {
                        let j = choose|j: int|
                            0 <= j < self.frames@.len() && (#[trigger] self.frames@[j]).key() == (
                                actor_id,
                                t,
                            );
                        assert(self.frames@[j].actor_id == actor_id);
                    }
                },
            }
        }
        best
    }

    /// Drops every frame whose tick is before `cutoff`.
    pub fn evict_before(&mut self, cutoff: Tick)
        requires
            old(self).wf(),
        ensures
            final(self).wf(),
            final(self)@ == kept_from(old(self)@, cutoff),
    {
        self.evict(cutoff, false);
    }

    /// Drops every frame whose tick is before `cutoff`, but for each actor's
    /// last one: what the actor holds at `cutoff` stays known.
    pub fn evict_keeping_last(&mut self, cutoff: Tick)
        requires
            old(self).wf(),
        ensures
            final(self).wf(),
            final(self)@ == kept_with_last(old(self)@, cutoff),
    {
        self.evict(cutoff, true);
    }

    /// Whether an eviction at `cutoff` keeps the frame.
    fn survives(&self, frame: &InputFrame, cutoff: Tick, with_last: bool) -> (r: bool)
        requires
            self.wf(),
            self@.contains_key(frame.key()),
        ensures
            r == kept(self@, cutoff, with_last).contains_key(frame.key()),
    {
        if frame.tick >= cutoff {
            true
        } else if with_last {
            match self.latest_up_to(frame.actor_id, cutoff - 1) {
                Some(last) => {
                    proof {
                        if is_last_before(self@, cutoff, frame.key()) {
                            lemma_latest_is_unique(
                                self@,
                                frame.actor_id,
                                (cutoff - 1) as Tick,
                                last.tick,
                                frame.tick,
                            );
                        }
                    }
                    last.tick == frame.tick
                },
                None => false,
            }
        } else {
            false
        }
    }

    fn evict(&mut self, cutoff: Tick, with_last: bool)
        requires
            old(self).wf(),
        ensures
            final(self).wf(),
            final(self)@ == kept(old(self)@, cutoff, with_last),
    {
        let mut survivors: Vec<InputFrame> = Vec::new();
        // For each frame kept, where it stood; for each frame seen, where it went.
        let ghost mut source: Seq<int> = Seq::empty();
        let ghost mut target: Seq<int> = Seq::empty();
        let ghost goal = kept(self@, cutoff, with_last);
        let mut i: usize = 0;
        while i < self.frames.len()
            invariant
                self.wf(),
                goal == kept(self@, cutoff, with_last),
                i <= self.frames@.len(),
                source.len() == survivors@.len(),
                target.len() == i,
                forall|a: int|
                    0 <= a < survivors@.len() ==> 0 <= #[trigger] source[a] < i && survivors@[a]
                        == self.frames@[source[a]] && target[source[a]] == a
                        && goal.contains_key(survivors@[a].key()),
                forall|b: int|
                    0 <= b < i ==> if goal.contains_key(self.frames@[b].key()) {
                        0 <= #[trigger] target[b] < survivors@.len() && source[target[b]] == b
                    } else {
                        target[b] == -1
                    },
            decreases self.frames@.len() - i,
        {
            let frame: InputFrame = self.frames[i];
            assert(self@.contains_key(self.frames@[i as int].key()));
            if self.survives(&frame, cutoff, with_last) {
                proof {
                    source = source.push(i as int);
                    target = target.push(survivors@.len() as int);
                }
                survivors.push(frame);
            } else {
                proof {
                    target = target.push(-1);
                }
            }
            i = i + 1;
        }
        let ghost before = self.frames@;
        self.frames = survivors;
        self.model = Ghost(goal);
        proof {
            assert forall|a: int| 0 <= a < self.frames@.len() implies self.model@.contains_key(
                (#[trigger] self.frames@[a]).key(),
            ) && self.model@[self.frames@[a].key()] == self.frames@[a].action_vector by {
                let b = source[a];
                assert(old(self).model@.contains_key(before[b].key()));
            }
            assert forall|k: FrameKey| #[trigger] self.model@.contains_key(k) implies exists|
                a: int,
            |
                0 <= a < self.frames@.len() && (#[trigger] self.frames@[a]).key() == k by {
                assert(old(self).model@.contains_key(k));
                let b = choose|b: int| 0 <= b < before.len() && (#[trigger] before[b]).key() == k;
                let a = target[b];
                assert(self.frames@[a].key() == k);
            }
            assert forall|a: int, c: int| 0 <= a < c < self.frames@.len() implies (
            #[trigger] self.frames@[a]).key() != (#[trigger] self.frames@[c]).key() by {
                let b = source[a];
                let d = source[c];
                assert(b != d);
                if b < d {
                    assert(before[b].key() != before[d].key());
                } else {
                    assert(before[d].key() != before[b].key());
                }
            }
        }
    }

    /// The number of frames in the table.
    pub fn len(&self) -> (n: usize)
        requires
            self.wf(),
        ensures
            n == self@.dom().len(),
            self@.dom().finite(),
    {
        proof {
            self.lemma_len();
        }
        self.frames.len()
    }

    proof fn lemma_len(&self)
        requires
            self.wf(),
        ensures
            self@.dom().finite(),
            self@.dom().len() == self.frames@.len(),
    {
        let keys = self.frames@.map_values(|f: InputFrame| f.key());
        assert(keys.no_duplicates()) by {
            assert forall|i: int, j: int| 0 <= i < keys.len() && 0 <= j < keys.len() && i != j implies keys[i] != keys[j] by {
                if i < j {
                    assert(self.frames@[i].key() != self.frames@[j].key());
                } else {
                    assert(self.frames@[j].key() != self.frames@[i].key());
                }
            }
        }
        assert(keys.to_set() =~= self@.dom()) by {
            assert forall|k: FrameKey| keys.to_set().contains(k) implies self@.dom().contains(k) by {
                let i = choose|i: int| 0 <= i < keys.len() && keys[i] == k;
                assert(self.frames@[i].key() == k);
            }
            assert forall|k: FrameKey| self@.dom().contains(k) implies keys.to_set().contains(k) by {
                assert(self.model@.contains_key(k));
                let i = choose|i: int| 0 <= i < self.frames@.len() && (#[trigger] self.frames@[i]).key() == k;
                assert(keys[i] == k);
            }
        }
        keys.unique_seq_to_set();
    }
}

} // verus!
