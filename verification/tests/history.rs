use spacerama::action::ActionEventData;
use spacerama::config::ConfigError;
use spacerama::entity::{EntityState, Quat, Vec3};
use spacerama::frames::{FrameTable, InputFrame};
use spacerama::input_buffer::InputBuffer;
use spacerama::scalar::Scalar;
use spacerama::snapshot::{Snapshot, SnapshotStore};

fn s(x: f32) -> Scalar {
    Scalar::from_bits(x.to_bits())
}

fn state(px: f32) -> EntityState {
    let zero = Vec3 { x: s(0.0), y: s(0.0), z: s(0.0) };
    EntityState {
        position: Vec3 { x: s(px), y: s(0.0), z: s(0.0) },
        rotation: Quat { x: s(0.0), y: s(0.0), z: s(0.0), w: s(1.0) },
        linear_velocity: zero,
        angular_velocity: zero,
        auto_balance: false,
    }
}

fn thrust(x: f32) -> ActionEventData {
    ActionEventData { thrust: s(x), ..ActionEventData::neutral() }
}

fn frame(actor_id: u64, tick: u64, x: f32) -> InputFrame {
    InputFrame { tick, actor_id, action_vector: thrust(x) }
}

#[test]
fn store_needs_a_slot() {
    assert!(matches!(SnapshotStore::new(1, 0), Err(ConfigError::HistoryTooShort)));
}

#[test]
fn store_starts_empty() {
    let store = SnapshotStore::new(4, 3).unwrap();
    assert_eq!(store.slot_count(), 3);
    assert_eq!(store.entity_id(), 4);
    assert_eq!(store.load(0), None);
    assert_eq!(store.load(7), None);
}

#[test]
fn store_round_trip() {
    let mut store = SnapshotStore::new(1, 4).unwrap();
    store.save(10, state(1.0));
    assert_eq!(store.load(10), Some(state(1.0)));
    assert_eq!(store.snapshot(10), Some(Snapshot { tick: 10, entity_id: 1, state: state(1.0) }));
    // Saving again overwrites.
    store.save(10, state(2.0));
    assert_eq!(store.load(10), Some(state(2.0)));
}

#[test]
fn store_keeps_the_window() {
    let mut store = SnapshotStore::new(1, 4).unwrap();
    for t in 0..10u64 {
        store.save(t, state(t as f32));
    }
    for t in 0..6u64 {
        assert_eq!(store.load(t), None);
    }
    for t in 6..10u64 {
        assert_eq!(store.load(t), Some(state(t as f32)));
    }
    assert_eq!(store.load(10), None);
}

#[test]
fn store_evicts_rather_than_answer_stale() {
    let mut store = SnapshotStore::new(1, 4).unwrap();
    store.save(3, state(3.0));
    store.save(7, state(7.0));
    assert_eq!(store.load(3), None);
    assert_eq!(store.load(7), Some(state(7.0)));
    assert_eq!(store.load(11), None);
    // An old tick saved late takes its slot back.
    store.save(3, state(3.5));
    assert_eq!(store.load(3), Some(state(3.5)));
    assert_eq!(store.load(7), None);
}

#[test]
fn store_of_one_slot_holds_the_last() {
    let mut store = SnapshotStore::new(1, 1).unwrap();
    store.save(5, state(5.0));
    store.save(6, state(6.0));
    assert_eq!(store.load(5), None);
    assert_eq!(store.load(6), Some(state(6.0)));
}

#[test]
fn store_handles_the_last_tick() {
    let mut store = SnapshotStore::new(1, 3).unwrap();
    store.save(u64::MAX, state(9.0));
    assert_eq!(store.load(u64::MAX), Some(state(9.0)));
    assert_eq!(store.load(u64::MAX - 3), None);
}

#[test]
fn table_insert_overwrites_by_key() {
    let mut table = FrameTable::new();
    assert_eq!(table.len(), 0);
    table.insert(frame(1, 5, 1.0));
    table.insert(frame(2, 5, 0.5));
    table.insert(frame(1, 5, 0.25));
    assert_eq!(table.len(), 2);
    assert_eq!(table.get(1, 5), Some(thrust(0.25)));
    assert_eq!(table.get(2, 5), Some(thrust(0.5)));
    assert_eq!(table.get(1, 6), None);
    assert_eq!(table.get(5, 1), None);
}

#[test]
fn table_latest_up_to_picks_the_last_tick() {
    let mut table = FrameTable::new();
    table.insert(frame(1, 9, 9.0));
    table.insert(frame(1, 3, 3.0));
    table.insert(frame(1, 6, 6.0));
    table.insert(frame(2, 7, 7.0));
    assert_eq!(table.latest_up_to(1, 8), Some(frame(1, 6, 6.0)));
    assert_eq!(table.latest_up_to(1, 6), Some(frame(1, 6, 6.0)));
    assert_eq!(table.latest_up_to(1, 5), Some(frame(1, 3, 3.0)));
    assert_eq!(table.latest_up_to(1, 2), None);
    assert_eq!(table.latest_up_to(1, u64::MAX), Some(frame(1, 9, 9.0)));
    assert_eq!(table.latest_up_to(3, 100), None);
}

#[test]
fn table_evicts_before_the_cutoff() {
    let mut table = FrameTable::new();
    for t in 0..6u64 {
        table.insert(frame(1, t, t as f32));
        table.insert(frame(2, t, -(t as f32)));
    }
    table.evict_before(4);
    assert_eq!(table.len(), 4);
    assert_eq!(table.get(1, 3), None);
    assert_eq!(table.get(2, 0), None);
    assert_eq!(table.get(1, 4), Some(thrust(4.0)));
    assert_eq!(table.get(2, 5), Some(thrust(-5.0)));
    table.evict_before(0);
    assert_eq!(table.len(), 4);
    table.evict_before(u64::MAX);
    assert_eq!(table.len(), 0);
}

#[test]
fn table_eviction_can_keep_each_actors_last_frame() {
    let mut table = FrameTable::new();
    table.insert(frame(1, 1, 1.0));
    table.insert(frame(1, 3, 3.0));
    table.insert(frame(1, 9, 9.0));
    table.insert(frame(2, 2, 2.0));
    table.insert(frame(3, 8, 8.0));
    table.evict_keeping_last(5);
    assert_eq!(table.len(), 4);
    assert_eq!(table.get(1, 1), None);
    assert_eq!(table.get(1, 3), Some(thrust(3.0)));
    assert_eq!(table.get(1, 9), Some(thrust(9.0)));
    assert_eq!(table.get(2, 2), Some(thrust(2.0)));
    assert_eq!(table.get(3, 8), Some(thrust(8.0)));
    // At cutoff 0 nothing is before.
    table.evict_keeping_last(0);
    assert_eq!(table.len(), 4);
    table.evict_keeping_last(u64::MAX);
    assert_eq!(table.len(), 3);
    assert_eq!(table.get(1, 3), None);
    assert_eq!(table.get(1, 9), Some(thrust(9.0)));
}

#[test]
fn buffer_eviction_changes_no_prediction_in_the_window() {
    let mut buffer = InputBuffer::new(1);
    buffer.confirm(2, 1, thrust(0.25));
    buffer.confirm(2, 3, thrust(0.5));
    buffer.confirm(2, 12, thrust(0.75));
    buffer.confirm(3, 11, thrust(1.0));
    let before: Vec<_> = (10..20u64).map(|t| (buffer.get_input(2, t), buffer.get_input(3, t))).collect();
    buffer.evict(20, 10);
    let after: Vec<_> = (10..20u64).map(|t| (buffer.get_input(2, t), buffer.get_input(3, t))).collect();
    assert_eq!(before, after);
    assert_eq!(buffer.get_input(2, 10).frame.action_vector, thrust(0.5));
    assert!(buffer.get_input(2, 10).predicted);
    assert_eq!(buffer.get_input(2, 2).frame.action_vector, ActionEventData::neutral());
}

#[test]
fn buffer_records_a_tick_once() {
    let mut buffer = InputBuffer::new(1);
    assert!(buffer.record_local(4, thrust(1.0)));
    assert!(!buffer.record_local(4, thrust(0.5)));
    assert_eq!(buffer.recorded_at(4), Some(thrust(1.0)));
    assert_eq!(buffer.recorded_at(5), None);
    // A local sample is no confirmation.
    assert_eq!(buffer.confirmed_at(1, 4), None);
}

#[test]
fn buffer_confirm_inserts_or_overwrites() {
    let mut buffer = InputBuffer::new(1);
    buffer.confirm(2, 7, thrust(0.5));
    assert_eq!(buffer.confirmed_at(2, 7), Some(thrust(0.5)));
    buffer.confirm(2, 7, thrust(0.75));
    assert_eq!(buffer.confirmed_at(2, 7), Some(thrust(0.75)));
    let got = buffer.get_input(2, 7);
    assert!(!got.predicted);
    assert_eq!(got.frame, frame(2, 7, 0.75));
}

#[test]
fn buffer_holds_the_last_confirmed_input() {
    let mut buffer = InputBuffer::new(1);
    buffer.confirm(5, 18, thrust(1.0));
    let got = buffer.get_input(5, 20);
    assert!(got.predicted);
    assert_eq!(got.frame.tick, 20);
    assert_eq!(got.frame.actor_id, 5);
    assert_eq!(got.frame.action_vector, thrust(1.0));
    assert_eq!(got.frame.action_vector.thrust.to_bits(), 1.0f32.to_bits());
}

#[test]
fn buffer_prediction_ignores_later_and_foreign_frames() {
    let mut buffer = InputBuffer::new(1);
    buffer.confirm(5, 18, thrust(1.0));
    buffer.confirm(5, 25, thrust(0.25));
    buffer.confirm(6, 19, thrust(0.5));
    let got = buffer.get_input(5, 20);
    assert!(got.predicted);
    assert_eq!(got.frame.action_vector, thrust(1.0));
}

#[test]
fn buffer_predicts_neutral_without_history() {
    let mut buffer = InputBuffer::new(1);
    buffer.confirm(5, 18, thrust(1.0));
    let got = buffer.get_input(5, 17);
    assert!(got.predicted);
    assert_eq!(got.frame, InputFrame { tick: 17, actor_id: 5, action_vector: ActionEventData::neutral() });
    let nobody = buffer.get_input(9, 3);
    assert!(nobody.predicted);
    assert_eq!(nobody.frame.action_vector, ActionEventData::neutral());
}

#[test]
fn buffer_delivery_order_does_not_matter() {
    let mut a = InputBuffer::new(1);
    let mut b = InputBuffer::new(1);
    let frames = [(2u64, 3u64, 0.1f32), (2, 5, 0.2), (3, 4, 0.3), (2, 4, 0.4)];
    for (actor, tick, x) in frames.iter() {
        a.confirm(*actor, *tick, thrust(*x));
    }
    for (actor, tick, x) in frames.iter().rev() {
        b.confirm(*actor, *tick, thrust(*x));
    }
    for actor in 1..5u64 {
        for tick in 0..8u64 {
            assert_eq!(a.get_input(actor, tick), b.get_input(actor, tick));
        }
    }
}

#[test]
fn buffer_evicts_what_is_older_than_the_window() {
    let mut buffer = InputBuffer::new(1);
    for t in 0..20u64 {
        assert!(buffer.record_local(t, thrust(t as f32)));
        buffer.confirm(2, t, thrust(t as f32));
    }
    buffer.evict(19, 10);
    assert_eq!(buffer.recorded_at(8), None);
    assert_eq!(buffer.recorded_at(9), Some(thrust(9.0)));
    assert_eq!(buffer.confirmed_at(2, 7), None);
    // The last confirmed frame before the window stays.
    assert_eq!(buffer.confirmed_at(2, 8), Some(thrust(8.0)));
    assert_eq!(buffer.confirmed_at(2, 9), Some(thrust(9.0)));
    // Before the window is full nothing is dropped.
    let mut young = InputBuffer::new(1);
    young.confirm(2, 0, thrust(1.0));
    young.evict(5, 10);
    assert_eq!(young.confirmed_at(2, 0), Some(thrust(1.0)));
}
