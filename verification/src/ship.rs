//! What a ship makes of its pilot's action vector: the decisions, on bit
//! patterns. The arithmetic that turns the commands into impulses is the
//! simulation's.

use vstd::prelude::*;
use crate::action::ActionEventData;
use crate::entity::Vec3;
use crate::scalar::{Scalar, INFINITY_BITS};

verus! {

/// The pattern of one thousandth. An axis whose input has a smaller
/// magnitude counts as untouched.
pub const AXIS_DEADBAND: u32 = 0x3a83_126f;

/// The pattern of one half. An auto-balance input of a larger magnitude
/// flips the ship's auto-balance flag.
pub const TOGGLE_THRESHOLD: u32 = 0x3f00_0000;

/// What the thrusters are asked for during one tick.
#[derive(Clone, Copy, PartialEq, Eq, Structural, Debug)]
pub struct ThrusterCommands {
    /// The ship's auto-balance flag after the tick's input.
    pub auto_balance: bool,
    pub thrust: Scalar,
    pub roll: Scalar,
    pub pitch: Scalar,
    pub yaw: Scalar,
}

/// Whether the input is a number of a magnitude above one half.
pub open spec fn flips_auto_balance(input: Scalar) -> bool {
    input.is_number() && input.magnitude() > TOGGLE_THRESHOLD
}

/// The command for one axis: the pilot's input, unless auto-balance is on
/// and the pilot leaves the axis alone; then the ship's spin about the axis,
/// negated, so that the thrusters work against it.
pub open spec fn balanced(enabled: bool, input: Scalar, spin: Scalar) -> Scalar {
    if enabled && input.magnitude() < AXIS_DEADBAND {
        spin.negated_spec()
    } else {
        input
    }
}

/// The commands of one tick, given the ship's flag before it, the pilot's
/// action vector and the ship's spin about its roll, pitch and yaw axes.
pub open spec fn commands(flag: bool, action: ActionEventData, spin: Vec3) -> ThrusterCommands {
    let auto_balance = if flips_auto_balance(action.auto_balance) {
        !flag
    } else {
        flag
    };
    ThrusterCommands {
        auto_balance,
        thrust: action.thrust,
        roll: balanced(auto_balance, action.roll, spin.x),
        pitch: balanced(auto_balance, action.pitch, spin.y),
        yaw: balanced(auto_balance, action.yaw, spin.z),
    }
}

/// Decides `balanced`.
pub fn auto_balance(
    auto_balance_enabled: bool,
    input_value: Scalar,
    angular_velocity_along_axis: Scalar,
) -> (command: Scalar)
    ensures
        command == balanced(auto_balance_enabled, input_value, angular_velocity_along_axis),
{
    if auto_balance_enabled && input_value.magnitude_bits() < AXIS_DEADBAND {
        angular_velocity_along_axis.negated()
    } else {
        input_value
    }
}

/// Decides `flips_auto_balance`.
pub fn toggles_auto_balance(input: Scalar) -> (r: bool)
    ensures
        r == flips_auto_balance(input),
{
    let magnitude: u32 = input.magnitude_bits();
    magnitude <= INFINITY_BITS && magnitude > TOGGLE_THRESHOLD
}

/// The commands of one tick: see `commands`. The flag is flipped first, and
/// the flipped flag decides whether the axes are balanced.
pub fn process_actions(flag: bool, action: &ActionEventData, spin: &Vec3) -> (r: ThrusterCommands)
    ensures
        r == commands(flag, *action, *spin),
{
    let auto_balance_enabled: bool = if toggles_auto_balance(action.auto_balance) {
        !flag
    } else {
        flag
    };
    ThrusterCommands {
        auto_balance: auto_balance_enabled,
        thrust: action.thrust,
        roll: auto_balance(auto_balance_enabled, action.roll, spin.x),
        pitch: auto_balance(auto_balance_enabled, action.pitch, spin.y),
        yaw: auto_balance(auto_balance_enabled, action.yaw, spin.z),
    }
}

} // verus!
