//! The abstract action vector that one actor produces per tick.

use vstd::prelude::*;
use crate::scalar::Scalar;

verus! {

/// One sample of an actor's controls: seven axes, each a `Scalar`.
#[derive(Clone, Copy, PartialEq, Eq, Structural, Debug)]
pub struct ActionEventData {
    pub thrust: Scalar,
    pub roll: Scalar,
    pub pitch: Scalar,
    pub yaw: Scalar,
    pub action1: Scalar,
    pub action2: Scalar,
    pub auto_balance: Scalar,
}

impl ActionEventData {
    /// The vector of an actor that touches nothing: positive zero on every axis.
    pub open spec fn neutral_spec() -> ActionEventData {
        let zero = Scalar { bits: 0 };
        ActionEventData {
            thrust: zero,
            roll: zero,
            pitch: zero,
            yaw: zero,
            action1: zero,
            action2: zero,
            auto_balance: zero,
        }
    }

    /// Whether every axis of `self` lies within `tolerance` steps of the same
    /// axis of `other`.
    pub open spec fn close_to(self, other: ActionEventData, tolerance: u32) -> bool {
        &&& self.thrust.close_to(other.thrust, tolerance)
        &&& self.roll.close_to(other.roll, tolerance)
        &&& self.pitch.close_to(other.pitch, tolerance)
        &&& self.yaw.close_to(other.yaw, tolerance)
        &&& self.action1.close_to(other.action1, tolerance)
        &&& self.action2.close_to(other.action2, tolerance)
        &&& self.auto_balance.close_to(other.auto_balance, tolerance)
    }

    pub fn neutral() -> (a: ActionEventData)
        ensures
            a == Self::neutral_spec(),
    {
        let zero = Scalar::zero();
        ActionEventData {
            thrust: zero,
            roll: zero,
            pitch: zero,
            yaw: zero,
            action1: zero,
            action2: zero,
            auto_balance: zero,
        }
    }

    /// Decides `close_to`.
    pub fn is_close(&self, other: &ActionEventData, tolerance: u32) -> (r: bool)
        ensures
            r == self.close_to(*other, tolerance),
    {
        self.thrust.is_close(other.thrust, tolerance)
            && self.roll.is_close(other.roll, tolerance)
            && self.pitch.is_close(other.pitch, tolerance)
            && self.yaw.is_close(other.yaw, tolerance)
            && self.action1.is_close(other.action1, tolerance)
            && self.action2.is_close(other.action2, tolerance)
            && self.auto_balance.is_close(other.auto_balance, tolerance)
    }
}

/// With no tolerance, only an action vector itself is close to it.
pub proof fn lemma_action_close_without_tolerance(a: ActionEventData, b: ActionEventData)
    ensures
        a.close_to(b, 0) == (a == b),
{
    crate::scalar::lemma_close_without_tolerance(a.thrust, b.thrust);
    crate::scalar::lemma_close_without_tolerance(a.roll, b.roll);
    crate::scalar::lemma_close_without_tolerance(a.pitch, b.pitch);
    crate::scalar::lemma_close_without_tolerance(a.yaw, b.yaw);
    crate::scalar::lemma_close_without_tolerance(a.action1, b.action1);
    crate::scalar::lemma_close_without_tolerance(a.action2, b.action2);
    crate::scalar::lemma_close_without_tolerance(a.auto_balance, b.auto_balance);
}

impl Default for ActionEventData {
    fn default() -> (a: ActionEventData)
        ensures
            a == ActionEventData::neutral_spec(),
    {
        ActionEventData::neutral()
    }
}

} // verus!
