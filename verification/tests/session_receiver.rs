use monhop_transport::protocol::{
    Button, DeliveryClass, DisplayDescription, DisplayId, DisplayTopology, Frame, FrameScope,
    GesturePhase, HidUsage, Key, Message, ModifierState, Motion, MouseButton, Point,
    PointerGesture, Scroll, SessionEpoch,
};
use monhop_transport::session_health::{HealthError, PeerHealth, HOLD_LIMIT, PEER_LIVENESS};
use monhop_transport::session_receiver::{
    ActionLog, Admission, DestinationAction, DestinationFailure, FrameCheck, InputDestination,
    InputReceiver, ReadyControl, ReceiverFailure, SequenceVerdict,
};
use monhop_transport::time::{from_millis, Duration};

fn coordinate(value: f64) -> i64 {
    let magnitude = value.abs().to_bits() as i64;
    if value < 0.0 {
        -magnitude
    } else {
        magnitude
    }
}

fn number(coordinate: i64) -> f64 {
    let magnitude = f64::from_bits(coordinate.unsigned_abs());
    if coordinate < 0 {
        -magnitude
    } else {
        magnitude
    }
}

fn point(x: f64, y: f64) -> Point {
    Point {
        x: coordinate(x),
        y: coordinate(y),
    }
}

#[derive(Default)]
struct Destination {
    calls: Vec<DestinationAction>,
    fail_move: bool,
    fail_release: bool,
}

impl InputDestination for Destination {
    fn history(&self) -> ActionLog {
        unreachable!()
    }

    fn apply(&mut self, action: DestinationAction) -> Result<(), DestinationFailure> {
        self.calls.push(action);
        if (matches!(action, DestinationAction::MoveTo(_)) && self.fail_move)
            || (matches!(action, DestinationAction::ReleaseAll) && self.fail_release)
        {
            return Err(DestinationFailure);
        }
        Ok(())
    }
}

/// A receiver with plain gates: a budget of frames, and numbers that only go up.
struct Gated {
    inner: InputReceiver,
    budget: Option<u32>,
    last_heartbeat: Option<u64>,
    last_input: Option<u64>,
}

impl Gated {
    fn after_startup(now: Duration) -> Result<Gated, ReceiverFailure> {
        Ok(Gated {
            inner: InputReceiver::after_startup(displays(), inherited_control(), now)?,
            budget: Some(1),
            last_heartbeat: Some(6),
            last_input: Some(6),
        })
    }

    fn receive(
        &mut self,
        frame: &Frame,
        now: Duration,
        target: &mut Destination,
    ) -> Result<Option<Message>, ReceiverFailure> {
        let mut admission = Admission {
            within_rate: true,
            heartbeat_is_fresh: false,
            epoch_opens: false,
            sequence: SequenceVerdict::Refused,
            landing: point(0.0, 0.0),
        };
        let check = self.inner.frame_check(frame, now);
        if check != FrameCheck::Closed {
            admission.within_rate = match &mut self.budget {
                None => true,
                Some(0) => false,
                Some(left) => {
                    *left -= 1;
                    true
                }
            };
        }
        if admission.within_rate {
            match check {
                FrameCheck::Closed | FrameCheck::Rate => {}
                FrameCheck::Heartbeat => {
                    if frame.epoch == self.inner.control_epoch()
                        && self.last_heartbeat.is_none_or(|last| frame.sequence > last)
                    {
                        self.last_heartbeat = Some(frame.sequence);
                        admission.heartbeat_is_fresh = true;
                    }
                }
                FrameCheck::Activation => {
                    self.last_input = Some(frame.sequence);
                    admission.epoch_opens = true;
                    admission.sequence = SequenceVerdict::Accepted;
                }
                FrameCheck::Sequence => {
                    if self.last_input.is_none_or(|last| frame.sequence > last) {
                        self.last_input = Some(frame.sequence);
                        admission.sequence = SequenceVerdict::Accepted;
                    } else {
                        admission.sequence = SequenceVerdict::StaleOrReplay;
                    }
                }
            }
        }
        if let (Message::Motion(Motion::Relative(delta)), Some(from)) =
            (&frame.message, self.inner.active_point())
        {
            admission.landing = point(
                number(from.x) + number(delta.x),
                number(from.y) + number(delta.y),
            );
        }
        self.inner.receive(frame, now, admission, target)
    }
}

fn displays() -> DisplayTopology {
    DisplayTopology::new(vec![DisplayDescription {
        id: DisplayId(1),
        name: "test".to_string(),
        native_width: 100,
        native_height: 100,
        logical_origin: point(0.0, 0.0),
        logical_size: point(100.0, 100.0),
        logical_end: point(100.0, 100.0),
        scale_factor: coordinate(1.0),
        is_primary: true,
        monitor: None,
    }])
}

fn receiver() -> Gated {
    Gated {
        inner: InputReceiver::new(displays(), SessionEpoch::new(1).unwrap(), 0),
        budget: None,
        last_heartbeat: None,
        last_input: None,
    }
}

fn frame(epoch: u64, sequence: u64, message: Message) -> Frame {
    Frame {
        scope: FrameScope::LowerControlsHigher,
        epoch: SessionEpoch::new(epoch).unwrap(),
        sequence,
        delivery: match message {
            Message::Motion(_) => DeliveryClass::MotionDatagram,
            _ => DeliveryClass::Reliable,
        },
        message,
    }
}

fn activate() -> Frame {
    frame(
        2,
        0,
        Message::ActivateDisplayAt {
            display_id: DisplayId(1),
            position: point(10.0, 10.0),
        },
    )
}

fn key(down: bool) -> Message {
    Message::Key(Key {
        usage: HidUsage(4),
        usage_is_valid: true,
        is_down: down,
        repeat: false,
        modifiers: ModifierState(0),
    })
}

#[test]
fn activation_ack_requires_successful_native_positioning() {
    let mut receiver = receiver();
    let mut target = Destination {
        fail_move: true,
        ..Default::default()
    };
    assert_eq!(
        receiver.receive(&activate(), 0, &mut target),
        Err(ReceiverFailure::NativeDelivery)
    );
    assert!(!receiver.inner.is_active());
    assert!(matches!(
        target.calls.last(),
        Some(DestinationAction::ReleaseAll)
    ));
}
fn inherited_control() -> ReadyControl {
    let mut health = PeerHealth::new(0);
    let token = health.poll(0).unwrap().unwrap();
    health.receive_pong(token, 0).unwrap();
    assert_eq!(health.poll(from_millis(30)), Ok(Some(2)));
    ReadyControl {
        epoch: SessionEpoch::new(1).unwrap(),
        next_incoming: 7,
        next_outgoing: 9,
        next_heartbeat_out: 9,
        last_heartbeat_in: Some(6),
        health,
        now: from_millis(30),
    }
}

#[test]
fn startup_handoff_preserves_challenge_sequence_rate_and_health_deadline() {
    let mut resumed = Gated::after_startup(from_millis(31)).ok().unwrap();
    let mut target = Destination::default();
    assert_eq!(
        resumed.receive(
            &frame(1, 7, Message::Pong(2)),
            from_millis(31),
            &mut target
        ),
        Ok(None)
    );
    assert_eq!(
        resumed.receive(
            &frame(1, 8, Message::Ping(3)),
            from_millis(31),
            &mut target
        ),
        Err(ReceiverFailure::RateLimited)
    );
    assert!(
        target
            .calls
            .iter()
            .all(|action| matches!(action, DestinationAction::ReleaseAll))
    );
    assert!(matches!(
        Gated::after_startup(PEER_LIVENESS),
        Err(ReceiverFailure::Health(HealthError::DeadlineExpired))
    ));
}

#[test]
fn startup_handoff_drops_a_replayed_heartbeat_and_tolerates_a_lost_one() {
    for (sequence, expected) in [(6, Ok(None)), (8, Ok(Some(Message::Pong(2))))] {
        let mut receiver = Gated::after_startup(from_millis(31)).ok().unwrap();
        assert_eq!(
            receiver.receive(
                &frame(1, sequence, Message::Ping(2)),
                from_millis(31),
                &mut Destination::default()
            ),
            expected
        );
    }
}

#[test]
fn late_motion_datagrams_are_dropped_while_the_ordered_stream_stays_strict() {
    let mut active = receiver();
    let mut target = Destination::default();
    active
        .receive(&activate(), 0, &mut target)
        .unwrap();
    let motion = |epoch, sequence| {
        frame(
            epoch,
            sequence,
            Message::Motion(Motion::Absolute(point(20.0, 20.0))),
        )
    };
    assert_eq!(
        active.receive(&motion(2, 5), 0, &mut target),
        Ok(None)
    );
    assert_eq!(
        active.receive(&motion(2, 4), 0, &mut target),
        Ok(None)
    );
    assert_eq!(
        active.receive(&motion(1, 6), 0, &mut target),
        Ok(None)
    );
    assert_eq!(
        active.receive(&frame(1, 1, key(true)), 0, &mut target),
        Err(ReceiverFailure::InvalidEpoch)
    );
    let mut fresh = receiver();
    fresh
        .receive(&activate(), 0, &mut target)
        .unwrap();
    assert_eq!(
        fresh.receive(&frame(2, 0, key(true)), 0, &mut target),
        Err(ReceiverFailure::InvalidSequence)
    );
}

#[test]
fn input_before_activation_is_rejected_and_released() {
    let mut receiver = receiver();
    let mut target = Destination::default();
    assert_eq!(
        receiver.receive(&frame(1, 0, key(true)), 0, &mut target),
        Err(ReceiverFailure::NotActive)
    );
    assert!(
        target
            .calls
            .iter()
            .all(|a| matches!(a, DestinationAction::ReleaseAll))
    );
}

#[test]
fn heartbeat_reply_crossing_an_activation_remains_valid() {
    let mut receiver = receiver();
    let mut target = Destination::default();
    let Some(Message::Ping(token)) = receiver.inner.tick(0, &mut target).unwrap() else {
        panic!("initial health challenge");
    };
    receiver
        .receive(&activate(), 0, &mut target)
        .unwrap();
    assert_eq!(
        receiver.receive(
            &frame(1, 0, Message::Pong(token)),
            from_millis(20),
            &mut target
        ),
        Ok(None)
    );
    assert!(receiver.inner.is_active());
}

#[test]
fn release_ack_is_emitted_only_after_native_release_succeeds() {
    let mut receiver = receiver();
    let mut target = Destination::default();
    receiver
        .receive(&activate(), 0, &mut target)
        .unwrap();
    target.fail_release = true;
    assert_eq!(
        receiver.receive(
            &frame(2, 1, Message::ReleaseAll),
            0,
            &mut target
        ),
        Err(ReceiverFailure::NativeDelivery)
    );
    assert!(receiver.inner.cleanup_pending());
}
#[test]
fn stuck_key_is_released_at_the_heartbeat_deadline_without_more_input() {
    let mut receiver = receiver();
    let mut target = Destination::default();
    assert_eq!(
        receiver.receive(&activate(), 0, &mut target),
        Ok(Some(Message::ActivationAck(DisplayId(1))))
    );
    receiver
        .receive(&frame(2, 1, key(true)), 0, &mut target)
        .unwrap();
    assert_eq!(receiver.inner.tick(PEER_LIVENESS, &mut target), Ok(None));
    assert!(matches!(
        target.calls.last(),
        Some(DestinationAction::ReleaseAll)
    ));
    assert!(receiver.inner.held_since().is_some());
    assert!(!receiver.inner.is_active());
    // The release that follows is stale: tracked for its sequence, never injected.
    let injected = target.calls.len();
    assert_eq!(
        receiver.receive(&frame(2, 2, key(false)), PEER_LIVENESS, &mut target),
        Ok(None)
    );
    assert_eq!(target.calls.len(), injected);
}

#[test]
fn a_held_receiver_answers_no_challenge_and_only_the_barrier_ends_the_hold() {
    let mut receiver = receiver();
    let mut target = Destination::default();
    assert_eq!(
        receiver.inner.tick(0, &mut target),
        Ok(Some(Message::Ping(1)))
    );
    receiver
        .receive(&activate(), 0, &mut target)
        .unwrap();
    receiver
        .receive(&frame(2, 1, key(true)), 0, &mut target)
        .unwrap();
    let held_at = PEER_LIVENESS;
    assert_eq!(receiver.inner.tick(held_at, &mut target), Ok(None));
    assert_eq!(receiver.inner.hold_stats(held_at).0, 1);
    // Stale motion and a stale activation are tracked without a reply or an injection.
    let injected = target.calls.len();
    let motion = Message::Motion(Motion::Relative(point(1.0, 1.0)));
    assert_eq!(
        receiver.receive(&frame(2, 2, motion), held_at, &mut target),
        Ok(None)
    );
    let reactivate = frame(
        3,
        0,
        Message::ActivateDisplayAt {
            display_id: DisplayId(1),
            position: point(5.0, 5.0),
        },
    );
    assert_eq!(
        receiver.receive(&reactivate, held_at, &mut target),
        Ok(None)
    );
    assert_eq!(receiver.inner.epoch().get(), 3);
    assert!(!receiver.inner.is_active());
    assert_eq!(target.calls.len(), injected);
    // A challenge from the source goes unanswered while held; a reply to a challenge sent
    // before the hold earns nothing.
    assert_eq!(
        receiver.receive(&frame(1, 0, Message::Ping(7)), held_at, &mut target),
        Ok(None)
    );
    assert_eq!(
        receiver.receive(&frame(1, 1, Message::Pong(1)), held_at, &mut target),
        Ok(None)
    );
    assert_eq!(
        receiver.inner.tick(held_at + from_millis(30), &mut target),
        Ok(Some(Message::Ping(2)))
    );
    // The barrier itself ends the hold, is applied, and is acknowledged.
    let resumed_at = held_at + from_millis(900);
    assert_eq!(
        receiver.receive(&frame(3, 1, Message::ReleaseAll), resumed_at, &mut target),
        Ok(Some(Message::ReleaseAck))
    );
    assert!(receiver.inner.held_since().is_none());
    assert!(matches!(
        target.calls.last(),
        Some(DestinationAction::ReleaseAll)
    ));
    assert_eq!(
        receiver.inner.hold_stats(resumed_at),
        (1, from_millis(900))
    );
    // Fresh input after the barrier applies normally once the source activates again.
    assert_eq!(
        receiver.receive(&frame(1, 2, Message::Ping(8)), resumed_at, &mut target),
        Ok(Some(Message::Pong(8)))
    );
    let activate_again = frame(
        4,
        0,
        Message::ActivateDisplayAt {
            display_id: DisplayId(1),
            position: point(1.0, 1.0),
        },
    );
    assert_eq!(
        receiver.receive(&activate_again, resumed_at, &mut target),
        Ok(Some(Message::ActivationAck(DisplayId(1))))
    );
    assert_eq!(
        receiver.receive(&frame(4, 1, key(true)), resumed_at, &mut target),
        Ok(None)
    );
    assert!(matches!(
        target.calls.last(),
        Some(DestinationAction::Key { pressed: true, .. })
    ));
    assert_eq!(
        receiver.inner.tick(
            resumed_at + PEER_LIVENESS - from_millis(1),
            &mut target
        ),
        Ok(Some(Message::Ping(3)))
    );
}

/// Builds the same activated receiver twice, so the hold is the only difference between them.
fn activated(hold: bool, target: &mut Destination) -> Gated {
    let mut receiver = receiver();
    receiver
        .receive(&activate(), 0, target)
        .unwrap();
    receiver
        .receive(&frame(2, 1, key(true)), 0, target)
        .unwrap();
    if hold {
        assert_eq!(receiver.inner.tick(PEER_LIVENESS, target), Ok(None));
        assert!(receiver.inner.held_since().is_some());
    }
    receiver
}

#[test]
fn a_hold_admits_and_rejects_exactly_the_frames_an_active_receiver_does() {
    let activation = |epoch, display, x| {
        frame(
            epoch,
            0,
            Message::ActivateDisplayAt {
                display_id: DisplayId(display),
                position: point(x, 10.0),
            },
        )
    };
    let motion = |epoch, sequence| {
        frame(
            epoch,
            sequence,
            Message::Motion(Motion::Absolute(point(20.0, 20.0))),
        )
    };
    let cases = [
        (
            "unexpected message",
            frame(2, 2, Message::ActivationAck(DisplayId(1))),
            Err(ReceiverFailure::UnexpectedMessage),
        ),
        (
            "stale epoch",
            frame(1, 2, key(true)),
            Err(ReceiverFailure::InvalidEpoch),
        ),
        (
            "future epoch",
            frame(3, 2, key(true)),
            Err(ReceiverFailure::InvalidEpoch),
        ),
        (
            "replayed sequence",
            frame(2, 1, key(false)),
            Err(ReceiverFailure::InvalidSequence),
        ),
        ("late datagram", motion(1, 2), Ok(None)),
        ("replayed datagram", motion(2, 1), Ok(None)),
        (
            "activation out of bounds",
            activation(3, 1, 100.0),
            Err(ReceiverFailure::InvalidPoint),
        ),
        (
            "activation on an unknown display",
            activation(3, 9, 10.0),
            Err(ReceiverFailure::WrongDisplay),
        ),
        (
            "activation skipping an epoch",
            activation(4, 1, 10.0),
            Err(ReceiverFailure::InvalidEpoch),
        ),
    ];
    for (label, probe, expected) in cases {
        let mut target = Destination::default();
        let mut active = activated(false, &mut target);
        let mut held = activated(true, &mut target);
        assert_eq!(
            active.receive(&probe, 0, &mut target),
            expected,
            "{}, active",
            label
        );
        assert_eq!(
            held.receive(&probe, PEER_LIVENESS, &mut target),
            expected,
            "{}, held",
            label
        );
    }
}

#[test]
fn a_hold_without_a_barrier_ends_at_the_limit() {
    let mut receiver = receiver();
    let mut target = Destination::default();
    assert_eq!(receiver.inner.tick(PEER_LIVENESS, &mut target), Ok(None));
    let last_tick = PEER_LIVENESS + HOLD_LIMIT - from_millis(1);
    assert!(receiver.inner.tick(last_tick, &mut target).is_ok());
    assert_eq!(
        receiver.inner.tick(PEER_LIVENESS + HOLD_LIMIT, &mut target),
        Err(ReceiverFailure::Health(HealthError::DeadlineExpired))
    );
    assert_eq!(receiver.inner.hold_stats(PEER_LIVENESS + HOLD_LIMIT).0, 1);
}

#[test]
fn a_failed_release_at_hold_entry_is_retried_on_every_tick() {
    let mut receiver = receiver();
    let mut target = Destination {
        fail_release: true,
        ..Default::default()
    };
    assert_eq!(receiver.inner.tick(PEER_LIVENESS, &mut target), Ok(None));
    assert!(receiver.inner.cleanup_pending());
    target.fail_release = false;
    assert!(
        receiver
            .inner
            .tick(PEER_LIVENESS + from_millis(30), &mut target)
            .is_ok()
    );
    assert!(!receiver.inner.cleanup_pending());
}
#[test]
fn failed_release_remains_pending_and_can_be_retried_locally() {
    let mut receiver = receiver();
    let mut target = Destination {
        fail_release: true,
        ..Default::default()
    };
    receiver.inner.stop(ReceiverFailure::PeerStopped, &mut target);
    assert!(receiver.inner.cleanup_pending());
    target.fail_release = false;
    receiver.inner.retry_cleanup(&mut target);
    assert!(!receiver.inner.cleanup_pending());
}
#[test]
fn out_of_bounds_activation_never_reaches_the_injector() {
    let mut receiver = receiver();
    let mut target = Destination::default();
    let activation = frame(
        2,
        0,
        Message::ActivateDisplayAt {
            display_id: DisplayId(1),
            position: point(100.0, 10.0),
        },
    );
    assert_eq!(
        receiver.receive(&activation, 0, &mut target),
        Err(ReceiverFailure::InvalidPoint)
    );
    assert!(
        target
            .calls
            .iter()
            .all(|a| matches!(a, DestinationAction::ReleaseAll))
    );
}

fn motion(sequence: u64, dx: f64, dy: f64) -> Frame {
    frame(
        2,
        sequence,
        Message::Motion(Motion::Relative(point(dx, dy))),
    )
}

#[test]
fn a_motion_burst_injects_its_final_position_once_on_flush() {
    let mut receiver = receiver();
    let mut target = Destination::default();
    receiver
        .receive(&activate(), 0, &mut target)
        .unwrap();
    for (sequence, delta) in [(1, 5.0), (2, 5.0), (3, -2.0)] {
        receiver
            .receive(&motion(sequence, delta, 1.0), 0, &mut target)
            .unwrap();
    }
    assert_eq!(target.calls.len(), 1, "the burst waits for the flush");
    receiver.inner.flush(&mut target).unwrap();
    assert_eq!(target.calls.len(), 2);
    assert!(matches!(
        target.calls[1],
        DestinationAction::MoveTo(at) if at == point(18.0, 13.0)
    ));
    receiver.inner.flush(&mut target).unwrap();
    assert_eq!(
        target.calls.len(),
        2,
        "a flush without motion injects nothing"
    );
}

#[test]
fn keys_and_buttons_land_after_the_pending_motion() {
    let mut receiver = receiver();
    let mut target = Destination::default();
    receiver
        .receive(&activate(), 0, &mut target)
        .unwrap();
    receiver
        .receive(&motion(1, 5.0, 0.0), 0, &mut target)
        .unwrap();
    receiver
        .receive(&frame(2, 2, key(true)), 0, &mut target)
        .unwrap();
    assert!(matches!(
        target.calls[1],
        DestinationAction::MoveTo(at) if at == point(15.0, 10.0)
    ));
    assert!(matches!(target.calls[2], DestinationAction::Key { .. }));
}

#[test]
fn every_motion_in_a_burst_is_still_bounds_checked() {
    let mut receiver = receiver();
    let mut target = Destination::default();
    receiver
        .receive(&activate(), 0, &mut target)
        .unwrap();
    receiver
        .receive(&motion(1, 80.0, 0.0), 0, &mut target)
        .unwrap();
    assert_eq!(
        receiver.receive(&motion(2, 20.0, 0.0), 0, &mut target),
        Err(ReceiverFailure::InvalidPoint)
    );
    assert!(
        !target
            .calls
            .iter()
            .any(|a| matches!(a, DestinationAction::MoveTo(at) if number(at.x) >= 90.0))
    );
}

#[test]
fn a_failed_flush_stops_the_receiver_and_releases() {
    let mut receiver = receiver();
    let mut target = Destination::default();
    receiver
        .receive(&activate(), 0, &mut target)
        .unwrap();
    receiver
        .receive(&motion(1, 5.0, 0.0), 0, &mut target)
        .unwrap();
    target.fail_move = true;
    assert_eq!(
        receiver.inner.flush(&mut target),
        Err(ReceiverFailure::NativeDelivery)
    );
    assert!(!receiver.inner.is_active());
    assert!(matches!(
        target.calls.last(),
        Some(DestinationAction::ReleaseAll)
    ));
}

fn active() -> (Gated, Destination) {
    let mut receiver = receiver();
    let mut target = Destination::default();
    receiver.receive(&activate(), 0, &mut target).unwrap();
    (receiver, target)
}

#[test]
fn pressed_state_is_followed_exactly() {
    let (mut up, mut target) = active();
    assert_eq!(
        up.receive(&frame(2, 1, key(false)), 0, &mut target),
        Err(ReceiverFailure::InvalidPressedState)
    );
    let (mut twice, mut target) = active();
    twice.receive(&frame(2, 1, key(true)), 0, &mut target).unwrap();
    assert_eq!(
        twice.receive(&frame(2, 2, key(true)), 0, &mut target),
        Err(ReceiverFailure::InvalidPressedState)
    );
    let (mut button, mut target) = active();
    let press = |is_down| {
        Message::Button(Button {
            button: MouseButton::Left,
            is_down,
            click_count: 1,
        })
    };
    button.receive(&frame(2, 1, press(true)), 0, &mut target).unwrap();
    button.receive(&frame(2, 2, press(false)), 0, &mut target).unwrap();
    assert_eq!(
        button.receive(&frame(2, 3, press(false)), 0, &mut target),
        Err(ReceiverFailure::InvalidPressedState)
    );
}

#[test]
fn modifiers_must_be_the_ones_that_are_down() {
    let (mut receiver, mut target) = active();
    let shift = |modifiers| {
        Message::Key(Key {
            usage: HidUsage(0xe1),
            usage_is_valid: true,
            is_down: true,
            repeat: false,
            modifiers: ModifierState(modifiers),
        })
    };
    receiver.receive(&frame(2, 1, shift(2)), 0, &mut target).unwrap();
    assert_eq!(
        receiver.receive(&frame(2, 2, key(true)), 0, &mut target),
        Err(ReceiverFailure::InvalidPressedState)
    );
}

#[test]
fn scrolls_are_bounded() {
    let scroll = |vertical| {
        Message::Scroll(Scroll {
            horizontal: 0,
            vertical: coordinate(vertical),
        })
    };
    let (mut receiver, mut target) = active();
    receiver
        .receive(&frame(2, 1, scroll(-1_000_000.0)), 0, &mut target)
        .unwrap();
    assert!(matches!(
        target.calls.last(),
        Some(DestinationAction::Scroll { horizontal: 0, .. })
    ));
    assert!(receiver
        .receive(&frame(2, 2, scroll(1_000_000.5)), 0, &mut target)
        .is_err());
    let (mut receiver, mut target) = active();
    assert!(receiver
        .receive(&frame(2, 1, scroll(f64::INFINITY)), 0, &mut target)
        .is_err());
}

#[test]
fn a_gesture_is_no_input_of_the_ordered_stream() {
    let (mut receiver, mut target) = active();
    let pinch = PointerGesture::Magnify {
        phase: GesturePhase::Began,
        delta: coordinate(0.5),
    };
    assert_eq!(
        receiver.receive(&frame(2, 1, Message::Gesture(pinch)), 0, &mut target),
        Err(ReceiverFailure::UnexpectedMessage)
    );
}

#[test]
fn a_peer_that_stops_is_released() {
    let (mut receiver, mut target) = active();
    receiver.receive(&frame(2, 1, key(true)), 0, &mut target).unwrap();
    assert_eq!(
        receiver.receive(&frame(2, 2, Message::Disconnect), 0, &mut target),
        Err(ReceiverFailure::PeerStopped)
    );
    assert!(matches!(
        target.calls.last(),
        Some(DestinationAction::ReleaseAll)
    ));
    assert_eq!(receiver.inner.failure(), Some(ReceiverFailure::PeerStopped));
    assert_eq!(receiver.inner.active_display(), None);
    assert_eq!(
        receiver.receive(&frame(2, 3, key(false)), 0, &mut target),
        Err(ReceiverFailure::PeerStopped)
    );
}

#[test]
fn reply_ages_count_from_the_last_fresh_reply() {
    let mut receiver = receiver();
    let mut target = Destination::default();
    assert_eq!(
        receiver.inner.tick(0, &mut target),
        Ok(Some(Message::Ping(1)))
    );
    assert_eq!(
        receiver.inner.reply_ages(from_millis(20)),
        (from_millis(20), Some(from_millis(20)))
    );
    receiver
        .receive(&frame(1, 0, Message::Pong(1)), from_millis(21), &mut target)
        .unwrap();
    assert_eq!(
        receiver.inner.reply_ages(from_millis(30)),
        (from_millis(9), None)
    );
}
