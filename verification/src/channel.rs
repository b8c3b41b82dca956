//! The inbound side of the synchronization channel.
//!
//! The transport hands over what it received, as bytes or decoded, in
//! whatever order it came; the channel keeps it until the simulation polls.
//! It imposes no order and detects no duplicates: the engine absorbs both.

use vstd::prelude::*;
use crate::action::ActionEventData;
use crate::entity::{ActorId, EntityState, Tick};

verus! {

/// What a peer or the server reports.
#[derive(Clone, Copy, PartialEq, Eq, Structural, Debug)]
pub enum RemoteUpdate {
    /// The confirmed input of an actor for a tick.
    Input { actor_id: ActorId, tick: Tick, action_vector: ActionEventData },
    /// The state that the authority holds for a tick.
    AuthoritativeState { tick: Tick, entity_state: EntityState },
}

pub struct SyncChannel {
    protocol_id: u64,
    inbound: Vec<RemoteUpdate>,
}

impl SyncChannel {
    /// The protocol version that the channel accepts.
    pub closed spec fn protocol(&self) -> u64 {
        self.protocol_id
    }

    /// The updates that were delivered and not yet polled, oldest first.
    pub closed spec fn queued(&self) -> Seq<RemoteUpdate> {
        self.inbound@
    }

    /// An empty channel.
    pub fn new(protocol_id: u64) -> (channel: SyncChannel)
        ensures
            channel.protocol() == protocol_id,
            channel.queued() == Seq::<RemoteUpdate>::empty(),
    {
        SyncChannel { protocol_id, inbound: Vec::new() }
    }

    /// Takes an update from the transport. One of another protocol version
    /// is dropped, and the answer is `false`.
    pub fn deliver(&mut self, protocol_id: u64, update: RemoteUpdate) -> (accepted: bool)
        ensures
            final(self).protocol() == old(self).protocol(),
            accepted == (protocol_id == old(self).protocol()),
            accepted ==> final(self).queued() == old(self).queued().push(update),
            !accepted ==> final(self).queued() == old(self).queued(),
    {
        if protocol_id == self.protocol_id {
            self.inbound.push(update);
            true
        } else {
            false
        }
    }

    /// Takes a message from the transport, as bytes. One that is no
    /// well-formed message, or is of another protocol version, is dropped,
    /// and the answer is `false`.
    pub fn deliver_bytes(&mut self, bytes: &[u8]) -> (accepted: bool)
        ensures
            final(self).protocol() == old(self).protocol(),
            accepted == (crate::wire::decoded(bytes@) is Some && crate::wire::decoded(
                bytes@,
            )->Some_0.0 == old(self).protocol()),
            accepted ==> final(self).queued() == old(self).queued().push(
                crate::wire::decoded(bytes@)->Some_0.1,
            ),
            !accepted ==> final(self).queued() == old(self).queued(),
    {
        match crate::wire::decode(bytes) {
            Some((protocol_id, update)) => self.deliver(protocol_id, update),
            None => false,
        }
    }

    /// Hands out everything that is queued, in the order of delivery, and
    /// leaves the queue empty. Never waits.
    pub fn poll(&mut self) -> (updates: Vec<RemoteUpdate>)
        ensures
            final(self).protocol() == old(self).protocol(),
            updates@ == old(self).queued(),
            final(self).queued() == Seq::<RemoteUpdate>::empty(),
    {
        let mut updates: Vec<RemoteUpdate> = Vec::new();
        core::mem::swap(&mut self.inbound, &mut updates);
        updates
    }

    /// The number of updates that are queued.
    pub fn pending(&self) -> (n: usize)
        ensures
            n == self.queued().len(),
    {
        self.inbound.len()
    }
}

} // verus!
