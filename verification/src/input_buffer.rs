//! Input capture and the buffer of confirmed inputs.
//!
//! The buffer keeps two histories: the local actor's samples, one per tick of
//! capture and never overwritten, and the confirmed frames of every actor,
//! which arrive in any order and may be replaced. For a tick without a
//! confirmed frame it predicts that the actor holds its last confirmed input.

use vstd::prelude::*;
use crate::action::ActionEventData;
use crate::entity::{ActorId, Tick};
use crate::frames::{
    is_latest, kept_with_last, lemma_latest_is_unique, FrameTable, Frames, InputFrame,
};

verus! {

/// An input to simulate a tick with, and whether it is a prediction that a
/// confirmation may still correct.
#[derive(Clone, Copy, PartialEq, Eq, Structural, Debug)]
pub struct PredictedInput {
    pub frame: InputFrame,
    pub predicted: bool,
}

/// The best input for `actor` at `tick`, given the confirmed frames: the
/// confirmed frame of that tick if there is one; else the actor's last
/// confirmed action vector before `tick`, held unchanged and marked as
/// predicted; else the neutral vector, marked as predicted.
pub open spec fn best_input(confirmed: Frames, actor: ActorId, tick: Tick) -> PredictedInput {
    if confirmed.contains_key((actor, tick)) {
        PredictedInput {
            frame: InputFrame { tick, actor_id: actor, action_vector: confirmed[(actor, tick)] },
            predicted: false,
        }
    } else if exists|t: Tick| is_latest(confirmed, actor, tick, t) {
        let t = choose|t: Tick| is_latest(confirmed, actor, tick, t);
        PredictedInput {
            frame: InputFrame { tick, actor_id: actor, action_vector: confirmed[(actor, t)] },
            predicted: true,
        }
    } else {
        PredictedInput {
            frame: InputFrame {
                tick,
                actor_id: actor,
                action_vector: ActionEventData::neutral_spec(),
            },
            predicted: true,
        }
    }
}

/// Hold-last prediction: where `actor` has no confirmed frame at `tick` and
/// its last one before is that of `last`, the best input is the action
/// vector of `last`, held unchanged and marked as predicted.
pub proof fn law_unconfirmed_tick_holds_last_input(
    confirmed: Frames,
    actor: ActorId,
    tick: Tick,
    last: Tick,
)
    requires
        !confirmed.contains_key((actor, tick)),
        is_latest(confirmed, actor, tick, last),
    ensures
        best_input(confirmed, actor, tick) == (PredictedInput {
            frame: InputFrame { tick, actor_id: actor, action_vector: confirmed[(actor, last)] },
            predicted: true,
        }),
{
    let t = choose|t: Tick| is_latest(confirmed, actor, tick, t);
    lemma_latest_is_unique(confirmed, actor, tick, t, last);
}

/// Whether two sets of confirmed frames hold the same frames of `actor` up
/// to `tick`.
pub open spec fn agree_up_to(a: Frames, b: Frames, actor: ActorId, tick: Tick) -> bool {
    forall|u: Tick|
        u <= tick ==> (#[trigger] a.contains_key((actor, u))) == b.contains_key((actor, u)) && (
        a.contains_key((actor, u)) ==> a[(actor, u)] == b[(actor, u)])
}

/// The best input of a tick depends on the actor's frames up to that tick
/// and on nothing else: not on later frames, not on other actors.
pub proof fn law_best_input_reads_the_past(a: Frames, b: Frames, actor: ActorId, tick: Tick)
    requires
        agree_up_to(a, b, actor, tick),
    ensures
        best_input(a, actor, tick) == best_input(b, actor, tick),
{
    assert(a.contains_key((actor, tick)) == b.contains_key((actor, tick)));
    if !a.contains_key((actor, tick)) {
        if exists|t: Tick| is_latest(a, actor, tick, t) {
            let t = choose|t: Tick| is_latest(a, actor, tick, t);
            assert(a.contains_key((actor, t)));
            assert forall|u: Tick| #[trigger] b.contains_key((actor, u)) && u <= tick implies u
                <= t by {
                assert(a.contains_key((actor, u)));
            }
            assert(is_latest(b, actor, tick, t));
            let k = choose|k: Tick| is_latest(b, actor, tick, k);
            lemma_latest_is_unique(b, actor, tick, k, t);
        } else {
            if exists|k: Tick| is_latest(b, actor, tick, k) {
                let k = choose|k: Tick| is_latest(b, actor, tick, k);
                assert(a.contains_key((actor, k)));
                lemma_some_latest(a, actor, tick, k);
            }
        }
    }
}

/// Across ticks for which the actor has no confirmed frame, the best input
/// stays what it was.
pub proof fn law_best_input_is_held(confirmed: Frames, actor: ActorId, from: Tick, tick: Tick)
    requires
        from <= tick,
        forall|u: Tick| from < u <= tick ==> !#[trigger] confirmed.contains_key((actor, u)),
    ensures
        best_input(confirmed, actor, tick).frame.action_vector == best_input(
            confirmed,
            actor,
            from,
        ).frame.action_vector,
{
    if from < tick {
        assert(!confirmed.contains_key((actor, tick)));
        if confirmed.contains_key((actor, from)) {
            assert(is_latest(confirmed, actor, tick, from));
            law_unconfirmed_tick_holds_last_input(confirmed, actor, tick, from);
        } else if exists|t: Tick| is_latest(confirmed, actor, from, t) {
            let t = choose|t: Tick| is_latest(confirmed, actor, from, t);
            assert(is_latest(confirmed, actor, tick, t));
            law_unconfirmed_tick_holds_last_input(confirmed, actor, tick, t);
            law_unconfirmed_tick_holds_last_input(confirmed, actor, from, t);
        } else {
            if exists|k: Tick| is_latest(confirmed, actor, tick, k) {
                let k = choose|k: Tick| is_latest(confirmed, actor, tick, k);
                assert(k <= from);
                lemma_some_latest(confirmed, actor, from, k);
            }
        }
    }
}

/// An eviction that keeps each actor's last frame changes no best input at
/// or after its cutoff.
pub proof fn law_eviction_keeps_predictions(
    confirmed: Frames,
    cutoff: Tick,
    actor: ActorId,
    tick: Tick,
)
    requires
        tick >= cutoff,
    ensures
        best_input(kept_with_last(confirmed, cutoff), actor, tick) == best_input(
            confirmed,
            actor,
            tick,
        ),
{
    let kept = kept_with_last(confirmed, cutoff);
    if !confirmed.contains_key((actor, tick)) {
        if exists|t: Tick| is_latest(confirmed, actor, tick, t) {
            let t = choose|t: Tick| is_latest(confirmed, actor, tick, t);
            if t < cutoff {
                assert forall|u: Tick| #[trigger]
                    confirmed.contains_key((actor, u)) && u <= (cutoff - 1) as Tick implies u
                    <= t by {}
                assert(is_latest(confirmed, actor, (cutoff - 1) as Tick, t));
            }
            assert(kept.contains_key((actor, t)));
            assert(is_latest(kept, actor, tick, t));
            let k = choose|k: Tick| is_latest(kept, actor, tick, k);
            lemma_latest_is_unique(kept, actor, tick, k, t);
        } else {
            if exists|k: Tick| is_latest(kept, actor, tick, k) {
                let k = choose|k: Tick| is_latest(kept, actor, tick, k);
                assert(confirmed.contains_key((actor, k)));
                lemma_some_latest(confirmed, actor, tick, k);
            }
        }
    }
}

/// Where an actor has a frame at or before `tick`, it has a last one.
proof fn lemma_some_latest(confirmed: Frames, actor: ActorId, tick: Tick, t: Tick)
    requires
        confirmed.contains_key((actor, t)),
        t <= tick,
    ensures
        exists|u: Tick| is_latest(confirmed, actor, tick, u),
    decreases tick - t,
{
    if !is_latest(confirmed, actor, tick, t) {
        let u = choose|u: Tick| #[trigger] confirmed.contains_key((actor, u)) && u <= tick && u > t;
        lemma_some_latest(confirmed, actor, tick, u);
    }
}

/// The samples of `samples` that were taken at `cutoff` or later.
pub open spec fn samples_from(samples: Map<Tick, ActionEventData>, cutoff: Tick) -> Map<
    Tick,
    ActionEventData,
> {
    Map::new(|t: Tick| samples.contains_key(t) && t >= cutoff, |t: Tick| samples[t])
}

/// The first tick that is kept when the history is cut to `window` ticks
/// before `current_tick`.
pub open spec fn eviction_cutoff(current_tick: Tick, window: u32) -> Tick {
    if current_tick >= window {
        (current_tick - window) as Tick
    } else {
        0
    }
}

pub struct InputBuffer {
    local_actor: ActorId,
    local: FrameTable,
    confirmed: FrameTable,
}

impl InputBuffer {
    pub closed spec fn wf(&self) -> bool {
        &&& self.local.wf()
        &&& self.confirmed.wf()
    }

    /// The actor whose input is sampled here.
    pub closed spec fn local_actor(&self) -> ActorId {
        self.local_actor
    }

    /// The local samples, by tick of capture.
    pub closed spec fn recorded(&self) -> Map<Tick, ActionEventData> {
        Map::new(
            |t: Tick| self.local@.contains_key((self.local_actor, t)),
            |t: Tick| self.local@[(self.local_actor, t)],
        )
    }

    /// The confirmed frames of all actors.
    pub closed spec fn confirmed(&self) -> Frames {
        self.confirmed@
    }

    /// An empty buffer.
    pub fn new(local_actor: ActorId) -> (buffer: InputBuffer)
        ensures
            buffer.wf(),
            buffer.local_actor() == local_actor,
            buffer.recorded() == Map::<Tick, ActionEventData>::empty(),
            buffer.confirmed() == Frames::empty(),
    {
        let buffer = InputBuffer {
            local_actor,
            local: FrameTable::new(),
            confirmed: FrameTable::new(),
        };
        assert(buffer.recorded() =~= Map::<Tick, ActionEventData>::empty());
        buffer
    }

    /// Stores the local sample of `tick`. A tick is sampled at most once:
    /// where it already has a sample, nothing changes and the answer is
    /// `false`.
    pub fn record_local(&mut self, tick: Tick, action_vector: ActionEventData) -> (stored: bool)
        requires
            old(self).wf(),
        ensures
            final(self).wf(),
            final(self).local_actor() == old(self).local_actor(),
            final(self).confirmed() == old(self).confirmed(),
            stored == !old(self).recorded().contains_key(tick),
            stored ==> final(self).recorded() == old(self).recorded().insert(tick, action_vector),
            !stored ==> final(self).recorded() == old(self).recorded(),
    {
        match self.local.get(self.local_actor, tick) {
            Some(_) => false,
            None => {
                self.local.insert(InputFrame { tick, actor_id: self.local_actor, action_vector });
                assert(final(self).recorded() =~= old(self).recorded().insert(
                    tick,
                    action_vector,
                ));
                true
            },
        }
    }

    /// The local sample of `tick`, if one was stored and not yet evicted.
    pub fn recorded_at(&self, tick: Tick) -> (r: Option<ActionEventData>)
        requires
            self.wf(),
        ensures
            r == (if self.recorded().contains_key(tick) {
                Some(self.recorded()[tick])
            } else {
                None::<ActionEventData>
            }),
    {
        self.local.get(self.local_actor, tick)
    }

    /// Stores a confirmed frame, in place of an earlier one for the same
    /// actor and tick.
    pub fn confirm(&mut self, actor_id: ActorId, tick: Tick, action_vector: ActionEventData)
        requires
            old(self).wf(),
        ensures
            final(self).wf(),
            final(self).local_actor() == old(self).local_actor(),
            final(self).recorded() == old(self).recorded(),
            final(self).confirmed() == old(self).confirmed().insert(
                (actor_id, tick),
                action_vector,
            ),
    {
        self.confirmed.insert(InputFrame { tick, actor_id, action_vector });
    }

    /// The confirmed action vector of `actor_id` at `tick`, if there is one.
    pub fn confirmed_at(&self, actor_id: ActorId, tick: Tick) -> (r: Option<ActionEventData>)
        requires
            self.wf(),
        ensures
            r == (if self.confirmed().contains_key((actor_id, tick)) {
                Some(self.confirmed()[(actor_id, tick)])
            } else {
                None::<ActionEventData>
            }),
    {
        self.confirmed.get(actor_id, tick)
    }

    /// The best input for `actor_id` at `tick`: see `best_input`.
    pub fn get_input(&self, actor_id: ActorId, tick: Tick) -> (input: PredictedInput)
        requires
            self.wf(),
        ensures
            input == best_input(self.confirmed(), actor_id, tick),
    {
        match self.confirmed.latest_up_to(actor_id, tick) {
            Some(last) => {
                proof {
                    if last.tick != tick {
                        let t = choose|t: Tick| is_latest(self.confirmed@, actor_id, tick, t);
                        lemma_latest_is_unique(self.confirmed@, actor_id, tick, t, last.tick);
                    }
                }
                PredictedInput {
                    frame: InputFrame { tick, actor_id, action_vector: last.action_vector },
                    predicted: last.tick != tick,
                }
            },
            None => PredictedInput {
                frame: InputFrame { tick, actor_id, action_vector: ActionEventData::neutral() },
                predicted: true,
            },
        }
    }

    /// Cuts both histories to the `window` ticks before `current_tick`:
    /// what is older is dropped, but for each actor's last confirmed frame,
    /// so that the eviction changes no prediction within the window.
    pub fn evict(&mut self, current_tick: Tick, window: u32)
        requires
            old(self).wf(),
        ensures
            final(self).wf(),
            final(self).local_actor() == old(self).local_actor(),
            final(self).recorded() == samples_from(
                old(self).recorded(),
                eviction_cutoff(current_tick, window),
            ),
            final(self).confirmed() == kept_with_last(
                old(self).confirmed(),
                eviction_cutoff(current_tick, window),
            ),
    {
        let cutoff: Tick = if current_tick >= window as u64 {
            current_tick - window as u64
        } else {
            0
        };
        self.local.evict_before(cutoff);
        self.confirmed.evict_keeping_last(cutoff);
        assert(final(self).recorded() =~= samples_from(old(self).recorded(), cutoff));
    }
}

} // verus!
