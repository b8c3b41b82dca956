use spacerama::action::ActionEventData;
use spacerama::channel::{RemoteUpdate, SyncChannel};
use spacerama::clock::FixedTickClock;
use spacerama::config::ConfigError;
use spacerama::scalar::Scalar;

fn input(actor_id: u64, tick: u64, thrust: f32) -> RemoteUpdate {
    RemoteUpdate::Input {
        actor_id,
        tick,
        action_vector: ActionEventData {
            thrust: Scalar::from_bits(thrust.to_bits()),
            ..ActionEventData::neutral()
        },
    }
}

#[test]
fn clock_rejects_a_zero_step() {
    assert!(matches!(FixedTickClock::new(0), Err(ConfigError::ZeroStep)));
}

#[test]
fn clock_starts_at_tick_zero() {
    let mut clock = FixedTickClock::new(10).unwrap();
    assert_eq!(clock.peek(), 0);
    assert_eq!(clock.advance(), None);
    clock.add_elapsed(10);
    assert_eq!(clock.advance(), Some(0));
    assert_eq!(clock.advance(), None);
    assert_eq!(clock.peek(), 1);
}

#[test]
fn clock_needs_a_full_step() {
    let mut clock = FixedTickClock::new(10).unwrap();
    clock.add_elapsed(9);
    assert_eq!(clock.advance(), None);
    clock.add_elapsed(1);
    assert_eq!(clock.advance(), Some(0));
}

#[test]
fn clock_catches_up_one_tick_per_call() {
    let mut clock = FixedTickClock::new(10).unwrap();
    clock.add_elapsed(35);
    assert_eq!(clock.advance(), Some(0));
    assert_eq!(clock.advance(), Some(1));
    assert_eq!(clock.advance(), Some(2));
    assert_eq!(clock.advance(), None);
    // The remainder is kept.
    clock.add_elapsed(5);
    assert_eq!(clock.advance(), Some(3));
    assert_eq!(clock.advance(), None);
}

#[test]
fn clock_accumulation_saturates() {
    let mut clock = FixedTickClock::new(u64::MAX).unwrap();
    clock.add_elapsed(u64::MAX);
    clock.add_elapsed(u64::MAX);
    assert_eq!(clock.advance(), Some(0));
    assert_eq!(clock.advance(), None);
}

#[test]
fn channel_hands_out_in_order_of_delivery() {
    let mut channel = SyncChannel::new(7);
    assert_eq!(channel.pending(), 0);
    assert!(channel.deliver(7, input(2, 9, 1.0)));
    assert!(channel.deliver(7, input(2, 3, 0.5)));
    assert!(channel.deliver(7, input(2, 9, 1.0)));
    assert_eq!(channel.pending(), 3);
    let updates = channel.poll();
    assert_eq!(updates, vec![input(2, 9, 1.0), input(2, 3, 0.5), input(2, 9, 1.0)]);
    assert_eq!(channel.pending(), 0);
    assert_eq!(channel.poll(), vec![]);
}

#[test]
fn channel_drops_another_protocol() {
    let mut channel = SyncChannel::new(7);
    assert!(!channel.deliver(8, input(2, 9, 1.0)));
    assert_eq!(channel.pending(), 0);
    assert!(channel.poll().is_empty());
}

#[test]
fn channel_queues_after_a_poll() {
    let mut channel = SyncChannel::new(7);
    assert!(channel.deliver(7, input(1, 1, 1.0)));
    assert_eq!(channel.poll().len(), 1);
    assert!(channel.deliver(7, input(1, 2, 1.0)));
    assert_eq!(channel.poll(), vec![input(1, 2, 1.0)]);
}
