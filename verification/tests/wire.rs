use spacerama::action::ActionEventData;
use spacerama::channel::{RemoteUpdate, SyncChannel};
use spacerama::entity::{EntityState, Quat, Vec3};
use spacerama::scalar::Scalar;
use spacerama::wire::{decode, encode};

fn s(x: f32) -> Scalar {
    Scalar::from_bits(x.to_bits())
}

fn sample_input() -> RemoteUpdate {
    RemoteUpdate::Input {
        actor_id: 0x0102_0304_0506_0708,
        tick: 7,
        action_vector: ActionEventData {
            thrust: s(1.0),
            roll: s(-1.0),
            pitch: Scalar::from_bits(0xdead_beef),
            yaw: s(0.0),
            action1: s(0.5),
            action2: s(f32::NAN),
            auto_balance: Scalar::from_bits(u32::MAX),
        },
    }
}

fn sample_state(flag: bool) -> RemoteUpdate {
    RemoteUpdate::AuthoritativeState {
        tick: u64::MAX,
        entity_state: EntityState {
            position: Vec3 { x: s(1.0), y: s(2.0), z: s(3.0) },
            rotation: Quat { x: s(0.0), y: s(0.0), z: s(0.0), w: s(1.0) },
            linear_velocity: Vec3 { x: s(-4.0), y: s(5.5), z: s(f32::INFINITY) },
            angular_velocity: Vec3 { x: s(0.125), y: s(-0.0), z: s(1e-30) },
            auto_balance: flag,
        },
    }
}

#[test]
fn wire_input_layout() {
    let bytes = encode(0x1122_3344_5566_7788, &sample_input());
    assert_eq!(bytes.len(), 56);
    // The protocol version, low word first, each word low byte first.
    assert_eq!(&bytes[0..8], &[0x88, 0x77, 0x66, 0x55, 0x44, 0x33, 0x22, 0x11]);
    // The kind.
    assert_eq!(&bytes[8..12], &[0, 0, 0, 0]);
    // The actor and the tick.
    assert_eq!(&bytes[12..20], &[8, 7, 6, 5, 4, 3, 2, 1]);
    assert_eq!(&bytes[20..28], &[7, 0, 0, 0, 0, 0, 0, 0]);
    // Thrust 1.0 is 0x3f800000.
    assert_eq!(&bytes[28..32], &[0x00, 0x00, 0x80, 0x3f]);
    assert_eq!(&bytes[36..40], &[0xef, 0xbe, 0xad, 0xde]);
    assert_eq!(&bytes[52..56], &[0xff, 0xff, 0xff, 0xff]);
}

#[test]
fn wire_state_layout() {
    let bytes = encode(1, &sample_state(true));
    assert_eq!(bytes.len(), 76);
    assert_eq!(&bytes[0..8], &[1, 0, 0, 0, 0, 0, 0, 0]);
    assert_eq!(&bytes[8..12], &[1, 0, 0, 0]);
    assert_eq!(&bytes[12..20], &[0xff; 8]);
    assert_eq!(&bytes[20..24], &1.0f32.to_le_bytes());
    assert_eq!(&bytes[68..72], &1e-30f32.to_le_bytes());
    assert_eq!(&bytes[72..76], &[1, 0, 0, 0]);
    assert_eq!(&encode(1, &sample_state(false))[72..76], &[0, 0, 0, 0]);
}

#[test]
fn wire_round_trip() {
    for update in [sample_input(), sample_state(true), sample_state(false)] {
        for protocol_id in [0u64, 7, u64::MAX, 0xffff_ffff, 0x1_0000_0000] {
            let bytes = encode(protocol_id, &update);
            assert_eq!(decode(&bytes), Some((protocol_id, update)));
        }
    }
}

#[test]
fn wire_rejects_what_is_no_message() {
    let good = encode(7, &sample_input());
    assert_eq!(decode(&[]), None);
    assert_eq!(decode(&good[..55]), None);
    assert_eq!(decode(&good[..52]), None);
    let mut long = good.clone();
    long.extend_from_slice(&[0, 0, 0, 0]);
    assert_eq!(decode(&long), None);
    // An unknown kind.
    let mut kind = good.clone();
    kind[8] = 2;
    assert_eq!(decode(&kind), None);
    kind[8] = 0;
    kind[11] = 1;
    assert_eq!(decode(&kind), None);
    // An input's length with a state's kind, and the other way round.
    let mut swapped = good.clone();
    swapped[8] = 1;
    assert_eq!(decode(&swapped), None);
    let mut state = encode(7, &sample_state(true));
    state[8] = 0;
    assert_eq!(decode(&state), None);
    // A flag that is neither set nor clear.
    let mut flag = encode(7, &sample_state(true));
    flag[72] = 2;
    assert_eq!(decode(&flag), None);
    flag[72] = 1;
    flag[73] = 1;
    assert_eq!(decode(&flag), None);
}

#[test]
fn wire_every_change_of_a_byte_changes_the_message() {
    let update = sample_state(false);
    let good = encode(7, &update);
    for i in 0..good.len() {
        let mut bytes = good.clone();
        bytes[i] ^= 0x40;
        assert_ne!(decode(&bytes), Some((7, update)));
    }
}

#[test]
fn channel_takes_bytes_of_its_protocol() {
    let mut channel = SyncChannel::new(7);
    assert!(channel.deliver_bytes(&encode(7, &sample_input())));
    assert!(!channel.deliver_bytes(&encode(8, &sample_input())));
    assert!(!channel.deliver_bytes(&[1, 2, 3]));
    assert!(channel.deliver_bytes(&encode(7, &sample_state(true))));
    assert_eq!(channel.poll(), vec![sample_input(), sample_state(true)]);
}
