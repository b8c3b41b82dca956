use spacerama::action::ActionEventData;
use spacerama::entity::Vec3;
use spacerama::scalar::Scalar;
use spacerama::ship::{
    auto_balance, process_actions, toggles_auto_balance, ThrusterCommands, AXIS_DEADBAND,
    TOGGLE_THRESHOLD,
};

fn s(x: f32) -> Scalar {
    Scalar::from_bits(x.to_bits())
}

fn f(x: Scalar) -> f32 {
    f32::from_bits(x.to_bits())
}

fn samples() -> Vec<f32> {
    vec![
        0.0,
        -0.0,
        1e-3,
        -1e-3,
        f32::from_bits(1e-3f32.to_bits() - 1),
        f32::from_bits(1e-3f32.to_bits() + 1),
        -f32::from_bits(1e-3f32.to_bits() - 1),
        9.9e-4,
        1e-30,
        f32::MIN_POSITIVE,
        f32::from_bits(1),
        0.4999,
        0.5,
        -0.5,
        f32::from_bits(0.5f32.to_bits() + 1),
        -f32::from_bits(0.5f32.to_bits() + 1),
        0.75,
        1.0,
        -1.0,
        123456.0,
        f32::MAX,
        f32::MIN,
        f32::INFINITY,
        f32::NEG_INFINITY,
        f32::NAN,
        -f32::NAN,
        f32::from_bits(0x7f80_0001),
        f32::from_bits(0xffff_ffff),
    ]
}

#[test]
fn thresholds_are_the_patterns_of_their_numbers() {
    assert_eq!(AXIS_DEADBAND, 1e-3f32.to_bits());
    assert_eq!(TOGGLE_THRESHOLD, 0.5f32.to_bits());
}

#[test]
fn magnitude_and_negation_follow_the_numbers() {
    for x in samples() {
        assert_eq!(s(x).magnitude_bits(), x.abs().to_bits());
        assert_eq!(s(x).negated().to_bits(), (-x).to_bits());
        assert_eq!(s(x).negated().negated(), s(x));
    }
}

#[test]
fn toggle_follows_the_numbers() {
    for x in samples() {
        assert_eq!(toggles_auto_balance(s(x)), x.abs() > 0.5, "for {x}");
    }
}

#[test]
fn axis_command_follows_the_numbers() {
    for enabled in [false, true] {
        for input in samples() {
            for spin in samples() {
                let expected = if enabled && input.abs() < 1e-3 { -spin } else { input };
                let got = auto_balance(enabled, s(input), s(spin));
                assert_eq!(got.to_bits(), expected.to_bits(), "for {enabled} {input} {spin}");
            }
        }
    }
}

#[test]
fn untouched_axis_works_against_the_spin() {
    assert_eq!(f(auto_balance(true, s(0.0), s(2.5))), -2.5);
    assert_eq!(f(auto_balance(true, s(0.0005), s(-2.5))), 2.5);
    assert_eq!(f(auto_balance(true, s(0.001), s(2.5))), 0.001);
    assert_eq!(f(auto_balance(true, s(-1.0), s(2.5))), -1.0);
    assert_eq!(f(auto_balance(false, s(0.0), s(2.5))), 0.0);
}

#[test]
fn actions_flip_the_flag_before_they_balance() {
    let spin = Vec3 { x: s(1.0), y: s(-2.0), z: s(3.0) };
    let steer = ActionEventData { thrust: s(1.0), pitch: s(0.25), ..ActionEventData::neutral() };
    assert_eq!(
        process_actions(true, &steer, &spin),
        ThrusterCommands { auto_balance: true, thrust: s(1.0), roll: s(-1.0), pitch: s(0.25), yaw: s(-3.0) }
    );
    assert_eq!(
        process_actions(false, &steer, &spin),
        ThrusterCommands { auto_balance: false, thrust: s(1.0), roll: s(0.0), pitch: s(0.25), yaw: s(0.0) }
    );
    let toggle = ActionEventData { auto_balance: s(1.0), ..steer };
    assert_eq!(
        process_actions(true, &toggle, &spin),
        ThrusterCommands { auto_balance: false, thrust: s(1.0), roll: s(0.0), pitch: s(0.25), yaw: s(0.0) }
    );
    assert_eq!(
        process_actions(false, &toggle, &spin),
        ThrusterCommands { auto_balance: true, thrust: s(1.0), roll: s(-1.0), pitch: s(0.25), yaw: s(-3.0) }
    );
    // One half does not flip.
    let half = ActionEventData { auto_balance: s(-0.5), ..steer };
    assert!(process_actions(true, &half, &spin).auto_balance);
}
