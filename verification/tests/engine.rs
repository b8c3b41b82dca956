use spacerama::action::ActionEventData;
use spacerama::channel::RemoteUpdate;
use spacerama::config::{ConfigError, SessionConfig};
use spacerama::engine::Session;
use spacerama::entity::{EntityState, Quat, Vec3};
use spacerama::frames::InputFrame;
use spacerama::input_buffer::PredictedInput;
use spacerama::model::{DesyncReason, Directive, Phase, ReceiveOutcome, StepRequest};
use spacerama::scalar::Scalar;

const A: u64 = 11;
const B: u64 = 22;

fn s(x: f32) -> Scalar {
    Scalar::from_bits(x.to_bits())
}

fn f(x: Scalar) -> f32 {
    f32::from_bits(x.to_bits())
}

fn rest() -> EntityState {
    let zero = Vec3 { x: s(0.0), y: s(0.0), z: s(0.0) };
    EntityState {
        position: zero,
        rotation: Quat { x: s(0.0), y: s(0.0), z: s(0.0), w: s(1.0) },
        linear_velocity: zero,
        angular_velocity: zero,
        auto_balance: true,
    }
}

fn thrust(x: f32) -> ActionEventData {
    ActionEventData { thrust: s(x), ..ActionEventData::neutral() }
}

fn input(actor_id: u64, tick: u64, x: f32) -> RemoteUpdate {
    RemoteUpdate::Input { actor_id, tick, action_vector: thrust(x) }
}

fn config(delay: u16, max_prediction: u16) -> SessionConfig {
    SessionConfig {
        input_delay_ticks: delay,
        max_prediction_ticks: max_prediction,
        correction_ticks_factor: 1500,
        player_count: 2,
        protocol_id: 7,
    }
}

fn session(delay: u16, max_prediction: u16) -> Session {
    Session::new(config(delay, max_prediction), 16, 0, vec![A, B], A, 1, rest()).unwrap()
}

/// A deterministic step: the first actor pushes along x, the second along y,
/// and the auto-balance axis of either flips the flag.
fn step(state: &EntityState, inputs: &[PredictedInput]) -> EntityState {
    let mut next = *state;
    let ax = f(inputs[0].frame.action_vector.thrust);
    let ay = f(inputs[1].frame.action_vector.thrust);
    let vx = f(state.linear_velocity.x) + ax * 0.5;
    let vy = f(state.linear_velocity.y) + ay * 0.25;
    next.linear_velocity.x = s(vx);
    next.linear_velocity.y = s(vy);
    next.position.x = s(f(state.position.x) + vx);
    next.position.y = s(f(state.position.y) + vy);
    for i in inputs {
        if f(i.frame.action_vector.auto_balance).abs() > 0.5 {
            next.auto_balance = !next.auto_balance;
        }
    }
    next
}

fn answer(session: &mut Session, request: StepRequest) -> Directive {
    let inputs = session.inputs_at(request.tick);
    session.complete_step(step(&request.state, &inputs))
}

fn tick(session: &mut Session, sample: ActionEventData) {
    match session.begin_tick(sample) {
        Directive::Simulate(request) => {
            assert_eq!(request.tick, session.next_tick());
            assert_eq!(request.state, session.live_state());
            assert_eq!(answer(session, request), Directive::Settled);
        }
        other => panic!("the tick did not begin: {:?}", other),
    }
}

/// Carries out the pending rollback; answers with the last directive and the
/// ticks that were replayed.
fn roll_back(session: &mut Session) -> (Directive, Vec<u64>) {
    let mut replayed = Vec::new();
    let mut directive = session.begin_rollback();
    loop {
        match directive {
            Directive::Simulate(request) => {
                replayed.push(request.tick);
                directive = answer(session, request);
            }
            other => return (other, replayed),
        }
    }
}

fn local_sample(t: u64) -> ActionEventData {
    if t == 5 {
        thrust(1.0)
    } else {
        ActionEventData::neutral()
    }
}

#[test]
fn session_start_checks_the_policy() {
    let bad = SessionConfig { max_prediction_ticks: 0, ..config(2, 8) };
    assert!(matches!(
        Session::new(bad, 16, 0, vec![A, B], A, 1, rest()),
        Err(ConfigError::NoPredictionWindow)
    ));
    let negative = SessionConfig { correction_ticks_factor: -1, ..config(2, 8) };
    assert!(matches!(
        Session::new(negative, 16, 0, vec![A, B], A, 1, rest()),
        Err(ConfigError::NegativeCorrectionFactor)
    ));
}

#[test]
fn session_start_checks_the_history() {
    assert!(matches!(
        Session::new(config(2, 8), 9, 0, vec![A, B], A, 1, rest()),
        Err(ConfigError::HistoryTooShort)
    ));
    assert!(Session::new(config(2, 8), 10, 0, vec![A, B], A, 1, rest()).is_ok());
}

#[test]
fn session_start_checks_the_roster() {
    assert!(matches!(
        Session::new(config(2, 8), 16, 0, vec![A], A, 1, rest()),
        Err(ConfigError::RosterMismatch)
    ));
    assert!(matches!(
        Session::new(config(2, 8), 16, 0, vec![A, A], A, 1, rest()),
        Err(ConfigError::DuplicateActor)
    ));
    assert!(matches!(
        Session::new(config(2, 8), 16, 0, vec![A, B], 33, 1, rest()),
        Err(ConfigError::UnknownLocalActor)
    ));
}

#[test]
fn session_starts_idle_at_tick_zero() {
    let session = session(2, 8);
    assert_eq!(session.phase(), Phase::Idle);
    assert_eq!(session.next_tick(), 0);
    assert_eq!(session.live_state(), rest());
    assert_eq!(session.correction(), None);
    assert_eq!(session.config(), config(2, 8));
    assert_eq!(session.snapshot_at(0), None);
}

#[test]
fn session_ticks_in_order() {
    let mut session = session(0, 8);
    for t in 0..5u64 {
        assert_eq!(session.next_tick(), t);
        tick(&mut session, thrust(1.0));
        assert_eq!(session.snapshot_at(t), Some(session.live_state()));
    }
    // Velocity grows by a half per tick, position by the velocity.
    assert_eq!(f(session.live_state().linear_velocity.x), 2.5);
    assert_eq!(f(session.live_state().position.x), 7.5);
}

#[test]
fn session_refuses_out_of_phase_calls() {
    let mut session = session(2, 8);
    assert_eq!(session.complete_step(rest()), Directive::Refused);
    assert_eq!(session.begin_rollback(), Directive::Refused);
    let begun = session.begin_tick(thrust(1.0));
    assert_eq!(begun, Directive::Simulate(StepRequest { tick: 0, state: rest() }));
    assert_eq!(session.phase(), Phase::Stepping);
    assert_eq!(session.begin_tick(thrust(1.0)), Directive::Refused);
    assert_eq!(session.begin_rollback(), Directive::Refused);
    assert_eq!(session.receive(input(B, 0, 1.0)), ReceiveOutcome::Deferred);
    assert_eq!(session.inputs_at(0)[1].frame.action_vector, ActionEventData::neutral());
    assert_eq!(session.complete_step(rest()), Directive::Settled);
    assert_eq!(session.phase(), Phase::Idle);
}

#[test]
fn session_delays_the_local_input() {
    let mut session = session(2, 8);
    for t in 0..8u64 {
        tick(&mut session, local_sample(t));
    }
    assert_eq!(
        session.outbound_frame(5),
        Some(InputFrame { tick: 7, actor_id: A, action_vector: thrust(1.0) })
    );
    assert_eq!(session.outbound_frame(8), None);
    let at = |t: u64| session.inputs_at(t)[0];
    assert_eq!(at(6).frame.action_vector, ActionEventData::neutral());
    assert!(!at(6).predicted);
    assert_eq!(at(7).frame.action_vector, thrust(1.0));
    assert!(!at(7).predicted);
    assert_eq!(at(8).frame.action_vector, ActionEventData::neutral());
    // Nothing is confirmed yet for the tick after the next one's delay.
    assert!(at(10).predicted);
    // The push of tick 5 took effect in tick 7 and in no other.
    assert_eq!(f(session.live_state().linear_velocity.x), 0.5);
    assert_eq!(f(session.snapshot_at(6).unwrap().linear_velocity.x), 0.0);
    assert_eq!(f(session.snapshot_at(7).unwrap().linear_velocity.x), 0.5);
}

#[test]
fn session_takes_early_and_agreeing_inputs_without_rollback() {
    let mut session = session(2, 8);
    for t in 0..4u64 {
        tick(&mut session, local_sample(t));
    }
    // For a tick to come.
    assert_eq!(session.receive(input(B, 6, 0.5)), ReceiveOutcome::Confirmed);
    // For a past tick, equal to the neutral prediction that was used.
    assert_eq!(session.receive(input(B, 2, 0.0)), ReceiveOutcome::Confirmed);
    assert_eq!(session.phase(), Phase::Idle);
    // Of an actor that is not in the roster.
    assert_eq!(session.receive(input(99, 2, 1.0)), ReceiveOutcome::Ignored);
    assert_eq!(session.phase(), Phase::Idle);
}

#[test]
fn session_tolerance_absorbs_jitter() {
    let mut exact = session(2, 8);
    let mut lenient = Session::new(config(2, 8), 16, 4, vec![A, B], A, 1, rest()).unwrap();
    for s in [&mut exact, &mut lenient] {
        assert_eq!(s.receive(input(B, 1, 1.0)), ReceiveOutcome::Confirmed);
        for t in 0..4u64 {
            tick(s, local_sample(t));
        }
    }
    let jitter = RemoteUpdate::Input {
        actor_id: B,
        tick: 2,
        action_vector: ActionEventData {
            thrust: Scalar::from_bits(1.0f32.to_bits() + 3),
            ..ActionEventData::neutral()
        },
    };
    assert_eq!(exact.receive(jitter), ReceiveOutcome::RollbackScheduled { target: 2 });
    assert_eq!(lenient.receive(jitter), ReceiveOutcome::Confirmed);
    assert_eq!(lenient.phase(), Phase::Idle);
}

#[test]
fn session_holds_an_old_input_through_eviction() {
    // A third actor spoke once, long ago; much later ticks still hold its input,
    // when they are first simulated and when they are replayed.
    let third = 33;
    let three = SessionConfig { player_count: 3, ..config(2, 8) };
    let mut late = Session::new(three, 16, 0, vec![A, third, B], A, 1, rest()).unwrap();
    let mut early = Session::new(three, 16, 0, vec![A, third, B], A, 1, rest()).unwrap();
    for s in [&mut late, &mut early] {
        assert_eq!(s.receive(input(third, 1, 0.5)), ReceiveOutcome::Confirmed);
    }
    assert_eq!(early.receive(input(B, 27, 9.0)), ReceiveOutcome::Confirmed);
    for t in 0..30u64 {
        tick(&mut late, local_sample(t));
        tick(&mut early, local_sample(t));
    }
    assert_eq!(late.inputs_at(29)[1].frame.action_vector, thrust(0.5));
    assert!(late.inputs_at(29)[1].predicted);
    // 29 ticks of a quarter of a half each.
    assert_eq!(f(late.live_state().linear_velocity.y), 29.0 * 0.125);
    assert_eq!(late.receive(input(B, 27, 9.0)), ReceiveOutcome::RollbackScheduled { target: 27 });
    assert_eq!(roll_back(&mut late).1, vec![27, 28, 29]);
    assert_eq!(late.inputs_at(28)[1].frame.action_vector, thrust(0.5));
    assert_eq!(f(late.live_state().linear_velocity.y), 29.0 * 0.125);
    assert_eq!(late.live_state(), early.live_state());
}

#[test]
fn session_uses_the_earliest_diverging_tick() {
    let mut session = session(2, 8);
    for t in 0..10u64 {
        tick(&mut session, local_sample(t));
    }
    assert_eq!(session.receive(input(B, 6, 0.5)), ReceiveOutcome::RollbackScheduled { target: 6 });
    assert_eq!(session.receive(input(B, 8, 0.5)), ReceiveOutcome::RollbackScheduled { target: 6 });
    assert_eq!(session.receive(input(B, 4, 0.5)), ReceiveOutcome::RollbackScheduled { target: 4 });
    assert_eq!(session.phase(), Phase::RollbackPending { target: 4 });
    assert_eq!(session.begin_tick(thrust(0.0)), Directive::Refused);
}

#[test]
fn rollback_end_to_end() {
    // The session under test learns of B's input for tick 7 after tick 12.
    let mut late = session(2, 8);
    // The reference knew it before tick 7 was simulated.
    let mut early = session(2, 8);
    assert_eq!(early.receive(input(B, 7, 0.75)), ReceiveOutcome::Confirmed);
    for t in 0..13u64 {
        tick(&mut late, local_sample(t));
        tick(&mut early, local_sample(t));
    }
    assert_ne!(late.live_state(), early.live_state());
    let shown = late.live_state();

    assert_eq!(late.receive(input(B, 7, 0.75)), ReceiveOutcome::RollbackScheduled { target: 7 });
    let (last, replayed) = roll_back(&mut late);
    assert_eq!(replayed, vec![7, 8, 9, 10, 11, 12]);
    assert_eq!(late.phase(), Phase::Idle);
    assert_eq!(late.next_tick(), 13);
    assert_eq!(late.live_state(), early.live_state());
    for t in 7..13u64 {
        assert_eq!(late.snapshot_at(t), early.snapshot_at(t));
    }
    match last {
        Directive::Corrected(correction) => {
            assert_eq!(correction.from, shown);
            assert_eq!(correction.to, late.live_state());
            assert_eq!(correction.start_tick, 13);
            // Six ticks replayed, times a factor of one and a half.
            assert_eq!(correction.duration_ticks, 9);
            assert_eq!(late.correction(), Some(correction));
        }
        other => panic!("no correction: {:?}", other),
    }
    // A's own push of tick 5 still takes effect in tick 7.
    assert_eq!(f(late.snapshot_at(7).unwrap().linear_velocity.x), 0.5);
    // B's held input pushes along y from tick 7 on.
    assert_eq!(f(late.snapshot_at(6).unwrap().linear_velocity.y), 0.0);
    assert_eq!(f(late.snapshot_at(7).unwrap().linear_velocity.y), 0.1875);
    assert_eq!(f(late.live_state().linear_velocity.y), 6.0 * 0.1875);

    // Both go on alike.
    tick(&mut late, local_sample(13));
    tick(&mut early, local_sample(13));
    assert_eq!(late.live_state(), early.live_state());
}

#[test]
fn rollback_with_a_corrected_input_matches_the_straight_run() {
    // Tick 10 was simulated with a prediction; the correction arrives at tick 15.
    let mut corrected = session(0, 8);
    let mut straight = session(0, 8);
    assert_eq!(straight.receive(input(B, 10, -1.0)), ReceiveOutcome::Confirmed);
    for s in [&mut corrected, &mut straight] {
        assert_eq!(s.receive(input(B, 12, 0.5)), ReceiveOutcome::Confirmed);
    }
    for t in 0..16u64 {
        tick(&mut corrected, thrust(0.125 * t as f32));
        tick(&mut straight, thrust(0.125 * t as f32));
    }
    let before = corrected.snapshot_at(9);
    assert_eq!(corrected.receive(input(B, 10, -1.0)), ReceiveOutcome::RollbackScheduled { target: 10 });
    let (last, replayed) = roll_back(&mut corrected);
    assert!(matches!(last, Directive::Corrected(_)));
    assert_eq!(replayed, vec![10, 11, 12, 13, 14, 15]);
    assert_eq!(corrected.snapshot_at(9), before);
    assert_eq!(corrected.live_state(), straight.live_state());
    for t in 10..16u64 {
        assert_eq!(corrected.snapshot_at(t), straight.snapshot_at(t));
        assert_eq!(corrected.inputs_at(t), straight.inputs_at(t));
    }
}

#[test]
fn rollback_converges_whatever_the_order_of_delivery() {
    let updates = [input(B, 3, 0.5), input(B, 5, -0.25), input(B, 4, 1.0), input(B, 8, 0.125)];
    let orders: [[usize; 4]; 4] = [[0, 2, 1, 3], [3, 2, 1, 0], [1, 3, 0, 2], [2, 0, 3, 1]];
    let mut results = Vec::new();
    for order in orders.iter() {
        let mut session = session(1, 8);
        for t in 0..10u64 {
            tick(&mut session, thrust(0.5));
        }
        for i in order.iter() {
            assert!(matches!(
                session.receive(updates[*i]),
                ReceiveOutcome::RollbackScheduled { .. }
            ));
        }
        assert_eq!(session.phase(), Phase::RollbackPending { target: 3 });
        let (last, replayed) = roll_back(&mut session);
        assert!(matches!(last, Directive::Corrected(_)));
        assert_eq!(replayed, vec![3, 4, 5, 6, 7, 8, 9]);
        results.push((session.live_state(), session.snapshot_at(5), session.inputs_at(9)));
    }
    for r in results.iter() {
        assert_eq!(*r, results[0]);
    }
    // The same as when the inputs were known from the start.
    let mut known = session(1, 8);
    for u in updates.iter() {
        assert_eq!(known.receive(*u), ReceiveOutcome::Confirmed);
    }
    for _ in 0..10u64 {
        tick(&mut known, thrust(0.5));
    }
    assert_eq!(known.live_state(), results[0].0);
}

#[test]
fn rollback_in_rounds_converges_too() {
    // The inputs arrive in two rounds, each followed by its rollback.
    let mut rounds = session(1, 8);
    let mut known = session(1, 8);
    for u in [input(B, 6, 0.5), input(B, 4, 1.0)] {
        assert_eq!(known.receive(u), ReceiveOutcome::Confirmed);
    }
    for _ in 0..10u64 {
        tick(&mut rounds, thrust(0.5));
        tick(&mut known, thrust(0.5));
    }
    assert_eq!(rounds.receive(input(B, 6, 0.5)), ReceiveOutcome::RollbackScheduled { target: 6 });
    assert_eq!(roll_back(&mut rounds).1, vec![6, 7, 8, 9]);
    assert_eq!(rounds.receive(input(B, 4, 1.0)), ReceiveOutcome::RollbackScheduled { target: 4 });
    assert_eq!(roll_back(&mut rounds).1, vec![4, 5, 6, 7, 8, 9]);
    assert_eq!(rounds.live_state(), known.live_state());
}

#[test]
fn frames_are_the_inputs_without_their_marks() {
    let mut session = session(2, 8);
    assert_eq!(session.receive(input(B, 1, 0.5)), ReceiveOutcome::Confirmed);
    for t in 0..4u64 {
        tick(&mut session, local_sample(t));
    }
    for t in 0..8u64 {
        let inputs = session.inputs_at(t);
        let frames = session.frames_at(t);
        assert_eq!(frames.len(), 2);
        assert_eq!(frames, inputs.iter().map(|i| i.frame).collect::<Vec<_>>());
        assert_eq!(frames[0].actor_id, A);
        assert_eq!(frames[1].actor_id, B);
        assert_eq!(frames[1].tick, t);
    }
    assert_eq!(session.frames_at(0)[1].action_vector, ActionEventData::neutral());
    assert_eq!(session.frames_at(5)[1].action_vector, thrust(0.5));
}

#[test]
fn predicted_ticks_await_confirmation() {
    let mut session = session(2, 8);
    // Nothing is confirmed: every tick is simulated with predictions.
    assert!(session.awaits_confirmation(0));
    for t in 0..4u64 {
        tick(&mut session, local_sample(t));
    }
    // The local input is confirmed up to tick 5, B's not at all.
    assert!(session.awaits_confirmation(3));
    assert_eq!(session.receive(input(B, 3, 0.0)), ReceiveOutcome::Confirmed);
    assert!(!session.awaits_confirmation(3));
    assert!(session.awaits_confirmation(4));
    // The local input of the first ticks never took effect: the delay covers them.
    assert_eq!(session.receive(input(B, 1, 0.0)), ReceiveOutcome::Confirmed);
    assert!(session.awaits_confirmation(1));
    assert!(session.inputs_at(1)[0].predicted);
    assert!(!session.inputs_at(1)[1].predicted);
}

#[test]
fn updates_are_taken_in_one_go() {
    let mut one_by_one = session(2, 8);
    let mut at_once = session(2, 8);
    for t in 0..10u64 {
        tick(&mut one_by_one, local_sample(t));
        tick(&mut at_once, local_sample(t));
    }
    let updates = vec![input(B, 6, 0.5), input(99, 1, 1.0), input(B, 4, 0.25), input(B, 12, 1.0)];
    let outcomes = at_once.receive_all(&updates);
    assert_eq!(
        outcomes,
        vec![
            ReceiveOutcome::RollbackScheduled { target: 6 },
            ReceiveOutcome::Ignored,
            ReceiveOutcome::RollbackScheduled { target: 4 },
            ReceiveOutcome::Confirmed,
        ]
    );
    for (i, u) in updates.iter().enumerate() {
        assert_eq!(one_by_one.receive(*u), outcomes[i]);
    }
    assert_eq!(one_by_one.phase(), at_once.phase());
    assert_eq!(roll_back(&mut one_by_one), roll_back(&mut at_once));
    assert_eq!(one_by_one.live_state(), at_once.live_state());
    assert!(at_once.receive_all(&Vec::new()).is_empty());
}

#[test]
fn duplicate_delivery_adds_no_rollback() {
    let mut session = session(2, 8);
    for t in 0..10u64 {
        tick(&mut session, local_sample(t));
    }
    let update = input(B, 6, 0.5);
    assert_eq!(session.receive(update), ReceiveOutcome::RollbackScheduled { target: 6 });
    // Again before the rollback: the same rollback, no other.
    assert_eq!(session.receive(update), ReceiveOutcome::RollbackScheduled { target: 6 });
    assert_eq!(session.phase(), Phase::RollbackPending { target: 6 });
    let (last, replayed) = roll_back(&mut session);
    assert!(matches!(last, Directive::Corrected(_)));
    assert_eq!(replayed, vec![6, 7, 8, 9]);
    let settled = session.live_state();
    // Again after the rollback: nothing.
    assert_eq!(session.receive(update), ReceiveOutcome::Confirmed);
    assert_eq!(session.phase(), Phase::Idle);
    assert_eq!(session.begin_rollback(), Directive::Refused);
    assert_eq!(session.live_state(), settled);
}

#[test]
fn rollback_beyond_the_window_is_a_desync() {
    let mut session = session(0, 4);
    for _ in 0..10u64 {
        tick(&mut session, thrust(0.5));
    }
    let shown = session.live_state();
    // Tick 6 is the oldest that four ticks of replay reach.
    assert_eq!(session.receive(input(B, 5, 1.0)), ReceiveOutcome::RollbackScheduled { target: 5 });
    assert_eq!(
        session.begin_rollback(),
        Directive::Desync(DesyncReason::ExceedsPredictionWindow)
    );
    assert_eq!(session.phase(), Phase::Idle);
    assert_eq!(session.live_state(), shown);
    assert_eq!(session.correction(), None);
    // The simulation goes on.
    tick(&mut session, thrust(0.5));
    assert_eq!(session.next_tick(), 11);
    assert_eq!(session.receive(input(B, 7, 1.0)), ReceiveOutcome::RollbackScheduled { target: 7 });
    assert_eq!(roll_back(&mut session).1, vec![7, 8, 9, 10]);
}

#[test]
fn rollback_to_an_evicted_snapshot_is_a_desync() {
    // A history of four ticks cannot serve a rollback of four: the base is gone.
    let mut session = Session::new(config(0, 4), 4, 0, vec![A, B], A, 1, rest()).unwrap();
    for _ in 0..10u64 {
        tick(&mut session, thrust(0.5));
    }
    assert_eq!(session.snapshot_at(5), None);
    assert_eq!(session.receive(input(B, 6, 1.0)), ReceiveOutcome::RollbackScheduled { target: 6 });
    assert_eq!(session.begin_rollback(), Directive::Desync(DesyncReason::SnapshotEvicted));
    assert_eq!(session.phase(), Phase::Idle);
    assert_eq!(session.receive(input(B, 7, 1.0)), ReceiveOutcome::RollbackScheduled { target: 7 });
    assert_eq!(roll_back(&mut session).1, vec![7, 8, 9]);
}

#[test]
fn rollback_to_tick_zero_replays_from_the_initial_state() {
    let mut late = session(0, 8);
    let mut early = session(0, 8);
    assert_eq!(early.receive(input(B, 0, 1.0)), ReceiveOutcome::Confirmed);
    for _ in 0..3u64 {
        tick(&mut late, thrust(0.5));
        tick(&mut early, thrust(0.5));
    }
    assert_eq!(late.receive(input(B, 0, 1.0)), ReceiveOutcome::RollbackScheduled { target: 0 });
    assert_eq!(
        late.begin_rollback(),
        Directive::Simulate(StepRequest { tick: 0, state: rest() })
    );
    assert_eq!(late.phase(), Phase::Resimulating { from: 0, tick: 0 });
    let mut directive = answer(&mut late, StepRequest { tick: 0, state: rest() });
    while let Directive::Simulate(request) = directive {
        directive = answer(&mut late, request);
    }
    assert_eq!(late.live_state(), early.live_state());
}

#[test]
fn authoritative_state_replaces_and_replays() {
    let mut session = session(0, 8);
    for _ in 0..6u64 {
        tick(&mut session, thrust(0.5));
    }
    let mut authority = session.snapshot_at(3).unwrap();
    // What the authority agrees with changes nothing.
    assert_eq!(
        session.receive(RemoteUpdate::AuthoritativeState { tick: 3, entity_state: authority }),
        ReceiveOutcome::Confirmed
    );
    authority.position.x = s(100.0);
    let update = RemoteUpdate::AuthoritativeState { tick: 3, entity_state: authority };
    assert_eq!(session.receive(update), ReceiveOutcome::RollbackScheduled { target: 4 });
    assert_eq!(session.snapshot_at(3), Some(authority));
    // The same state again is nothing new.
    assert_eq!(session.receive(update), ReceiveOutcome::Confirmed);
    assert_eq!(session.phase(), Phase::RollbackPending { target: 4 });
    let (last, replayed) = roll_back(&mut session);
    assert!(matches!(last, Directive::Corrected(_)));
    assert_eq!(replayed, vec![4, 5]);
    // Velocity 1.0 at tick 3; ticks 4 and 5 add 1.25 and 1.5 to the position.
    assert_eq!(f(session.live_state().position.x), 102.75);
}

#[test]
fn authoritative_state_of_the_last_tick_corrects_at_once() {
    let mut session = session(0, 8);
    for _ in 0..6u64 {
        tick(&mut session, thrust(0.5));
    }
    let shown = session.live_state();
    let mut authority = shown;
    authority.position.x = s(-1.0);
    assert_eq!(
        session.receive(RemoteUpdate::AuthoritativeState { tick: 5, entity_state: authority }),
        ReceiveOutcome::RollbackScheduled { target: 6 }
    );
    match session.begin_rollback() {
        Directive::Corrected(correction) => {
            assert_eq!(correction.from, shown);
            assert_eq!(correction.to, authority);
            assert_eq!(correction.duration_ticks, 0);
        }
        other => panic!("no correction: {:?}", other),
    }
    assert_eq!(session.live_state(), authority);
    assert_eq!(session.phase(), Phase::Idle);
}

#[test]
fn authoritative_state_out_of_reach() {
    let mut session = Session::new(config(0, 4), 4, 0, vec![A, B], A, 1, rest()).unwrap();
    for _ in 0..10u64 {
        tick(&mut session, thrust(0.5));
    }
    let state = session.live_state();
    // Not simulated yet.
    assert_eq!(
        session.receive(RemoteUpdate::AuthoritativeState { tick: 10, entity_state: state }),
        ReceiveOutcome::Ignored
    );
    // No longer in the history.
    assert_eq!(
        session.receive(RemoteUpdate::AuthoritativeState { tick: 2, entity_state: state }),
        ReceiveOutcome::Desync(DesyncReason::SnapshotEvicted)
    );
    assert_eq!(session.phase(), Phase::Idle);
}

#[test]
fn correction_does_not_feed_back() {
    // Two sessions that differ only in the correction they last emitted go on alike.
    let mut corrected = session(0, 8);
    let mut plain = session(0, 8);
    assert_eq!(plain.receive(input(B, 2, 1.0)), ReceiveOutcome::Confirmed);
    for _ in 0..5u64 {
        tick(&mut corrected, thrust(0.5));
        tick(&mut plain, thrust(0.5));
    }
    assert_eq!(corrected.receive(input(B, 2, 1.0)), ReceiveOutcome::RollbackScheduled { target: 2 });
    assert!(matches!(roll_back(&mut corrected).0, Directive::Corrected(_)));
    assert!(corrected.correction().is_some());
    assert!(plain.correction().is_none());
    for _ in 0..5u64 {
        tick(&mut corrected, thrust(0.25));
        tick(&mut plain, thrust(0.25));
        assert_eq!(corrected.live_state(), plain.live_state());
    }
}

#[test]
fn auto_balance_flag_is_part_of_the_snapshot() {
    let mut session = session(0, 8);
    let toggle = ActionEventData { auto_balance: s(1.0), ..ActionEventData::neutral() };
    tick(&mut session, toggle);
    assert!(!session.live_state().auto_balance);
    tick(&mut session, ActionEventData::neutral());
    assert!(!session.snapshot_at(1).unwrap().auto_balance);
    // B had toggled too, in tick 0: the replay flips the flag back.
    assert_eq!(
        session.receive(RemoteUpdate::Input { actor_id: B, tick: 0, action_vector: toggle }),
        ReceiveOutcome::RollbackScheduled { target: 0 }
    );
    assert_eq!(roll_back(&mut session).1, vec![0, 1]);
    assert!(session.snapshot_at(0).unwrap().auto_balance);
    // B's toggle is held as a prediction for tick 1, so the flag flips again.
    assert!(!session.live_state().auto_balance);
}
