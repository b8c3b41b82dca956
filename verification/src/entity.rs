//! The simulated state of one entity.

use vstd::prelude::*;
use crate::scalar::Scalar;

verus! {

/// Identifies one fixed simulation step. The first step of a session is 0.
pub type Tick = u64;

/// Identifies a participant of a session.
pub type ActorId = u64;

/// Identifies a simulated entity.
pub type EntityId = u64;

/// Three components.
#[derive(Clone, Copy, PartialEq, Eq, Structural, Debug)]
pub struct Vec3 {
    pub x: Scalar,
    pub y: Scalar,
    pub z: Scalar,
}

/// A rotation as a quaternion's four components.
#[derive(Clone, Copy, PartialEq, Eq, Structural, Debug)]
pub struct Quat {
    pub x: Scalar,
    pub y: Scalar,
    pub z: Scalar,
    pub w: Scalar,
}

/// Everything of an entity that the simulation step reads and writes.
#[derive(Clone, Copy, PartialEq, Eq, Structural, Debug)]
pub struct EntityState {
    pub position: Vec3,
    pub rotation: Quat,
    pub linear_velocity: Vec3,
    pub angular_velocity: Vec3,
    pub auto_balance: bool,
}

impl Vec3 {
    pub open spec fn close_to(self, other: Vec3, tolerance: u32) -> bool {
        &&& self.x.close_to(other.x, tolerance)
        &&& self.y.close_to(other.y, tolerance)
        &&& self.z.close_to(other.z, tolerance)
    }

    /// Decides `close_to`.
    pub fn is_close(&self, other: &Vec3, tolerance: u32) -> (r: bool)
        ensures
            r == self.close_to(*other, tolerance),
    {
        self.x.is_close(other.x, tolerance) && self.y.is_close(other.y, tolerance)
            && self.z.is_close(other.z, tolerance)
    }
}

impl Quat {
    pub open spec fn close_to(self, other: Quat, tolerance: u32) -> bool {
        &&& self.x.close_to(other.x, tolerance)
        &&& self.y.close_to(other.y, tolerance)
        &&& self.z.close_to(other.z, tolerance)
        &&& self.w.close_to(other.w, tolerance)
    }

    /// Decides `close_to`.
    pub fn is_close(&self, other: &Quat, tolerance: u32) -> (r: bool)
        ensures
            r == self.close_to(*other, tolerance),
    {
        self.x.is_close(other.x, tolerance) && self.y.is_close(other.y, tolerance)
            && self.z.is_close(other.z, tolerance) && self.w.is_close(other.w, tolerance)
    }
}

impl EntityState {
    /// Whether the two states carry the same flag and every component of one
    /// lies within `tolerance` steps of the same component of the other.
    pub open spec fn close_to(self, other: EntityState, tolerance: u32) -> bool {
        &&& self.auto_balance == other.auto_balance
        &&& self.position.close_to(other.position, tolerance)
        &&& self.rotation.close_to(other.rotation, tolerance)
        &&& self.linear_velocity.close_to(other.linear_velocity, tolerance)
        &&& self.angular_velocity.close_to(other.angular_velocity, tolerance)
    }

    /// Decides `close_to`.
    pub fn is_close(&self, other: &EntityState, tolerance: u32) -> (r: bool)
        ensures
            r == self.close_to(*other, tolerance),
    {
        self.auto_balance == other.auto_balance
            && self.position.is_close(&other.position, tolerance)
            && self.rotation.is_close(&other.rotation, tolerance)
            && self.linear_velocity.is_close(&other.linear_velocity, tolerance)
            && self.angular_velocity.is_close(&other.angular_velocity, tolerance)
    }
}

} // verus!
