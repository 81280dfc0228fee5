use monhop_transport::protocol::{
    DeliveryClass, DisplayDescription, DisplayId, DisplayTopology, Frame, FrameScope, HidUsage,
    Key, Message, ModifierState, Point, SessionEpoch,
};
use monhop_transport::session_actor::{
    cleanup_step, frame_queued, last_receiver_failure, micros_since, receiver_failure_code,
    ActorFailure, CleanupStep, Constructed, DestinationActor, Handoff, Incoming, LoopAction,
    OutputSequences, Polled, Queued, ReceiverLoop, ReceiverStats, StartupAction, Status, Worker,
};
use monhop_transport::session_health::{HealthError, PeerHealth, PEER_LIVENESS};
use monhop_transport::session_receiver::{
    ActionLog, Admission, DestinationAction, DestinationFailure, FrameCheck, InputDestination,
    InputReceiver, ReadyControl, ReceiverFailure, SequenceVerdict,
};
use monhop_transport::time::{from_micros, from_millis, Duration};
use std::collections::VecDeque;

fn coordinate(value: f64) -> i64 {
    value.to_bits() as i64
}

fn point(x: f64, y: f64) -> Point {
    Point {
        x: coordinate(x),
        y: coordinate(y),
    }
}

#[derive(Default)]
struct Probe {
    actions: Vec<DestinationAction>,
    /// How many further releases fail.
    failing_releases: usize,
    environment_reads: usize,
}

impl InputDestination for Probe {
    fn history(&self) -> ActionLog {
        unreachable!()
    }

    fn apply(&mut self, action: DestinationAction) -> Result<(), DestinationFailure> {
        self.actions.push(action);
        if action == DestinationAction::ReleaseAll && self.failing_releases > 0 {
            self.failing_releases -= 1;
            return Err(DestinationFailure);
        }
        Ok(())
    }
}

fn displays() -> DisplayTopology {
    DisplayTopology::new(vec![DisplayDescription {
        id: DisplayId(1),
        name: "fixture".to_string(),
        native_width: 100,
        native_height: 100,
        logical_origin: point(0.0, 0.0),
        logical_size: point(100.0, 100.0),
        logical_end: point(100.0, 100.0),
        scale_factor: coordinate(1.0),
        is_primary: true,
        monitor: None,
    }])
}

fn ready_control(sequence: u64) -> ReadyControl {
    ReadyControl {
        epoch: SessionEpoch::new(1).unwrap(),
        next_incoming: sequence,
        next_outgoing: sequence,
        next_heartbeat_out: sequence,
        last_heartbeat_in: sequence.checked_sub(1),
        health: PeerHealth::new(0),
        now: 0,
    }
}

/// A destination worker and its owner, driven step by step on a clock that the test moves.
struct Fixture {
    actor: DestinationActor,
    worker: Worker,
    stopping: bool,
    probe: Probe,
    receiver: Option<InputReceiver>,
    last_heartbeat: u64,
    last_input: Option<u64>,
    pass: ReceiverLoop,
    sequences: OutputSequences,
    incoming: VecDeque<Frame>,
    outgoing: Vec<Frame>,
    /// Panic when this key is injected.
    panic_on: Option<HidUsage>,
    now: Duration,
}

impl Fixture {
    /// Starts the worker and lets it get ready.
    fn ready(probe: Probe) -> Fixture {
        let mut fixture = Fixture {
            actor: DestinationActor::start_after_local_enable(false).ok().unwrap(),
            worker: Worker::Running,
            stopping: false,
            probe,
            receiver: None,
            last_heartbeat: 2,
            last_input: None,
            pass: ReceiverLoop::new(),
            sequences: OutputSequences {
                control: 3,
                input: 0,
                epoch: SessionEpoch::new(1).unwrap(),
            },
            incoming: VecDeque::new(),
            outgoing: Vec::new(),
            panic_on: None,
            now: from_millis(1),
        };
        let status = &mut fixture.actor.status;
        assert_eq!(status.before_construction(false), StartupAction::Construct);
        assert_eq!(
            status.constructed(Constructed::Built, false),
            StartupAction::Validate
        );
        fixture.probe.environment_reads += 1;
        assert_eq!(
            status.validated(true, false),
            StartupAction::AwaitHandoff
        );
        assert!(fixture.actor.is_native_ready(fixture.worker));
        fixture
    }

    /// Hands the control over, with the clock at `now` when the receiver is built.
    fn hand_off(&mut self, now: Duration) -> StartupAction {
        self.actor.handoff_ready(self.worker).unwrap();
        self.actor.handoff_queued(Queued::Sent).unwrap();
        let status = &mut self.actor.status;
        assert_eq!(
            status.handoff(Handoff::Received, false),
            StartupAction::Revalidate
        );
        self.probe.environment_reads += 1;
        assert_eq!(
            status.revalidated(true, false),
            StartupAction::BuildReceiver
        );
        self.now = now;
        match InputReceiver::after_startup(displays(), ready_control(3), now) {
            Ok(receiver) => {
                self.receiver = Some(receiver);
                status.receiver_built(None, false)
            }
            Err(failure) => status.receiver_built(Some(failure), false),
        }
    }

    fn started(probe: Probe) -> Fixture {
        let mut fixture = Fixture::ready(probe);
        assert_eq!(fixture.hand_off(from_millis(1)), StartupAction::Run);
        assert!(fixture.actor.is_started(fixture.worker));
        fixture
    }

    fn submit(&mut self, frame: Frame) {
        self.actor.try_submit(self.worker).unwrap();
        self.incoming.push_back(frame);
        self.actor.submitted(Queued::Sent).unwrap();
    }

    fn send(&mut self, message: Option<Message>) {
        let receiver = self.receiver.as_ref().unwrap();
        if let Some(message) = message {
            if let Some(frame) = self.sequences.next_frame(
                message,
                receiver.control_epoch(),
                receiver.epoch(),
                &mut self.actor.status,
            ) {
                self.outgoing.push(frame);
                frame_queued(&mut self.actor.status, Queued::Sent);
            }
        }
    }

    fn admission(&mut self, frame: &Frame, now: Duration) -> Admission {
        let mut admission = Admission {
            within_rate: true,
            heartbeat_is_fresh: false,
            epoch_opens: false,
            sequence: SequenceVerdict::StaleOrReplay,
            landing: point(0.0, 0.0),
        };
        match self.receiver.as_ref().unwrap().frame_check(frame, now) {
            FrameCheck::Closed | FrameCheck::Rate => {}
            FrameCheck::Heartbeat => {
                admission.heartbeat_is_fresh = frame.sequence > self.last_heartbeat;
                self.last_heartbeat = self.last_heartbeat.max(frame.sequence);
            }
            FrameCheck::Activation => {
                admission.epoch_opens = true;
                admission.sequence = SequenceVerdict::Accepted;
                self.last_input = Some(frame.sequence);
            }
            FrameCheck::Sequence => {
                if self.last_input.is_none_or(|last| frame.sequence > last) {
                    admission.sequence = SequenceVerdict::Accepted;
                    self.last_input = Some(frame.sequence);
                }
            }
        }
        admission
    }

    /// One pass of the receive loop; `received_at` is the clock when a frame came off the queue.
    /// True while the loop goes on.
    fn pass(&mut self, received_at: Duration) -> bool {
        let mut action = self
            .pass
            .wake(&mut self.actor.status, self.now, self.stopping);
        let mut frame = None;
        loop {
            let now = self.pass.now;
            action = match action {
                LoopAction::ValidateEnvironment => {
                    self.probe.environment_reads += 1;
                    let micros = micros_since(self.now, self.now);
                    self.pass
                        .environment(&mut self.actor.status, true, false, micros)
                }
                LoopAction::TakeBack => self.pass.took_back(&mut self.actor.status, None),
                LoopAction::Tick => {
                    let receiver = self.receiver.as_mut().unwrap();
                    let report = self.pass.tick(receiver, &mut self.probe);
                    self.send(report.answer);
                    self.pass
                        .ticked(&mut self.actor.status, report.stopped, report.holds)
                }
                LoopAction::Poll => {
                    frame = self.incoming.pop_front();
                    let incoming = if frame.is_some() {
                        Incoming::Frame
                    } else {
                        Incoming::Empty
                    };
                    self.pass.polled(
                        &mut self.actor.status,
                        incoming,
                        self.stopping,
                        received_at,
                    )
                }
                LoopAction::TakeBackInBatch => {
                    self.pass.took_back_in_batch(&mut self.actor.status, None)
                }
                LoopAction::Receive => {
                    let taken = frame.take().unwrap();
                    if let (Some(usage), Message::Key(key)) = (self.panic_on, &taken.message) {
                        if key.usage == usage {
                            self.probe.actions.push(DestinationAction::Key {
                                usage,
                                pressed: true,
                            });
                            self.panicked();
                            return false;
                        }
                    }
                    let admission = self.admission(&taken, now);
                    let receiver = self.receiver.as_mut().unwrap();
                    let report = self
                        .pass
                        .receive(receiver, &taken, admission, &mut self.probe);
                    self.send(report.answer);
                    self.pass.received(
                        &mut self.actor.status,
                        report.stopped,
                        report.active,
                        report.holds,
                    )
                }
                LoopAction::Queue => {
                    frame = self.incoming.pop_front();
                    let more = frame.is_some();
                    self.pass.queued(&mut self.actor.status, more)
                }
                LoopAction::Flush => {
                    let receiver = self.receiver.as_mut().unwrap();
                    let stopped = self.pass.flush(receiver, &mut self.probe);
                    self.pass.flushed(&mut self.actor.status, stopped)
                }
                LoopAction::Measure => self.pass.measured(&mut self.actor.status, 0),
                LoopAction::Wait | LoopAction::Wake => return true,
                LoopAction::CleanUp => return false,
            };
        }
    }

    fn panicked(&mut self) {
        self.actor.status.stop(ActorFailure::Panicked);
    }

    /// One attempt to release everything; the worker ends once it succeeds.
    fn clean_up(&mut self) {
        self.actor.status.cleaning(true);
        if self.probe.apply(DestinationAction::ReleaseAll).is_ok() {
            self.actor.status.cleaning(false);
            self.worker = Worker::Ended;
        }
    }
}

fn frame(epoch: u64, sequence: u64, message: Message) -> Frame {
    Frame {
        scope: FrameScope::LowerControlsHigher,
        epoch: SessionEpoch::new(epoch).unwrap(),
        sequence,
        delivery: DeliveryClass::Reliable,
        message,
    }
}

fn activation() -> Frame {
    frame(
        2,
        0,
        Message::ActivateDisplayAt {
            display_id: DisplayId(1),
            position: point(20.0, 20.0),
        },
    )
}

fn press(sequence: u64, usage: u16) -> Frame {
    frame(
        2,
        sequence,
        Message::Key(Key {
            usage: HidUsage(usage),
            usage_is_valid: true,
            is_down: true,
            repeat: false,
            modifiers: ModifierState(0),
        }),
    )
}

#[test]
fn stop_before_worker_construction_never_calls_the_native_factory() {
    let mut status = Status::new();
    status.stop(ActorFailure::Requested);
    assert_eq!(status.before_construction(false), StartupAction::Return);
    assert_eq!(status.failure(), Some(ActorFailure::Requested));
}

#[test]
fn delayed_factory_returns_without_blocking_and_retains_ownership_until_stop() {
    let mut actor = DestinationActor::start_after_local_enable(false).ok().unwrap();
    assert_eq!(
        actor.status.before_construction(false),
        StartupAction::Construct
    );
    // The factory is still at work when the owner asks for the stop.
    actor.request_stop();
    assert!(!actor.finish(Worker::Running));
    assert_eq!(
        actor.status.constructed(Constructed::Built, false),
        StartupAction::CleanUp
    );
    assert!(actor.finish(Worker::Ended));
    assert_eq!(actor.failure(Worker::Ended), Some(ActorFailure::Requested));
}

#[test]
fn revoked_before_factory_prevents_construction_and_releases_ownership() {
    assert!(matches!(
        DestinationActor::start_after_local_enable(true),
        Err(ActorFailure::Revoked)
    ));
    let mut status = Status::new();
    assert_eq!(status.before_construction(true), StartupAction::Return);
    assert_eq!(status.failure(), Some(ActorFailure::Revoked));
}

#[test]
fn input_is_rejected_before_ready_handoff() {
    let mut fixture = Fixture::ready(Probe::default());
    assert_eq!(
        fixture.actor.try_submit(fixture.worker),
        Err(ActorFailure::Startup)
    );
    assert_eq!(
        fixture.actor.status.awaiting(false),
        StartupAction::CleanUp
    );
    fixture.clean_up();
    assert!(fixture.actor.finish(fixture.worker));
    assert!(fixture.probe.actions.iter().all(|action| action.is_release()));
}

#[test]
fn blocked_network_consumer_cannot_prevent_native_release() {
    let mut fixture = Fixture::started(Probe::default());
    fixture.submit(activation());
    fixture.submit(press(1, 4));
    assert!(fixture.pass(fixture.now));
    assert!(matches!(
        fixture.probe.actions[0],
        DestinationAction::MoveTo(_)
    ));
    assert!(matches!(
        fixture.probe.actions[1],
        DestinationAction::Key { pressed: true, .. }
    ));
    assert_eq!(
        fixture.actor.active_display(fixture.worker),
        Some(DisplayId(1))
    );
    // Intentionally never drain responses or send a pong, as if the writer were stalled.
    while fixture.now < PEER_LIVENESS + from_millis(200) {
        assert!(fixture.pass(fixture.now));
        fixture.now += from_millis(1);
    }
    assert_eq!(fixture.probe.actions[2], DestinationAction::EndGestures);
    assert_eq!(fixture.probe.actions[3], DestinationAction::ReleaseAll);
    // The release does not wait for the network, and the session holds instead of ending.
    assert!(fixture.actor.is_held());
    assert!(fixture.actor.failure(fixture.worker).is_none());
    assert_eq!(fixture.actor.stats().holds, 1);
    fixture.actor.request_stop();
    assert!(!fixture.pass(fixture.now));
    fixture.clean_up();
    assert!(fixture.actor.finish(fixture.worker));
    assert!(!fixture.actor.cleanup_pending());
}

#[test]
fn sleep_during_queued_handoff_expires_before_start_and_retains_cleanup_ownership() {
    let mut fixture = Fixture::ready(Probe {
        failing_releases: 1,
        ..Probe::default()
    });
    let action = fixture.hand_off(from_millis(31) + PEER_LIVENESS);
    assert_eq!(action, StartupAction::CleanUp);
    fixture.clean_up();
    assert!(fixture.actor.cleanup_pending());
    assert_eq!(
        fixture.actor.failure(fixture.worker),
        Some(ActorFailure::Receiver)
    );
    assert_eq!(
        fixture.actor.status.last_receiver_failure,
        Some(ReceiverFailure::Health(HealthError::DeadlineExpired))
    );
    assert!(!fixture.actor.is_started(fixture.worker));
    assert!(!fixture.actor.is_finished(fixture.worker));
    fixture.clean_up();
    assert!(fixture.actor.finish(fixture.worker));
    assert!(!fixture.probe.actions.is_empty());
    assert!(fixture.probe.actions.iter().all(|action| action.is_release()));
}

#[test]
fn queued_matching_pong_after_sleep_cannot_refresh_health_or_deliver_more_input() {
    let mut fixture = Fixture::started(Probe::default());
    fixture.submit(activation());
    fixture.submit(press(1, 4));
    assert!(fixture.pass(fixture.now));
    let token = fixture
        .outgoing
        .iter()
        .find_map(|frame| match frame.message {
            Message::Ping(token) => Some(token),
            _ => None,
        })
        .unwrap();
    fixture.submit(frame(1, 3, Message::Pong(token)));
    fixture.submit(press(2, 5));
    // The pass begins with an old sample of the clock, but takes the frames past the deadline.
    assert!(fixture.pass(from_millis(1) + PEER_LIVENESS));
    // The stale reply earns no credit and the queued key never lands: the receiver holds.
    assert!(fixture.actor.is_held());
    assert!(fixture.actor.failure(fixture.worker).is_none());
    fixture.actor.request_stop();
    assert!(!fixture.pass(fixture.now));
    fixture.clean_up();
    assert!(fixture.actor.is_finished(fixture.worker));
    assert!(fixture.actor.finish(fixture.worker));
    let actions = &fixture.probe.actions;
    assert!(actions.len() >= 3);
    assert!(matches!(actions[0], DestinationAction::MoveTo(_)));
    assert!(matches!(
        actions[1],
        DestinationAction::Key {
            usage: HidUsage(4),
            pressed: true
        }
    ));
    assert!(actions[2..].iter().all(|action| action.is_release()));
}

#[test]
fn panic_keeps_native_ownership_until_release_succeeds_without_a_redundant_drop_release() {
    let mut fixture = Fixture::started(Probe {
        failing_releases: 2,
        ..Probe::default()
    });
    fixture.panic_on = Some(HidUsage(4));
    fixture.submit(activation());
    fixture.submit(press(1, 4));
    assert!(!fixture.pass(fixture.now));
    while fixture.worker == Worker::Running {
        fixture.clean_up();
    }
    assert!(fixture.actor.finish(fixture.worker));
    assert_eq!(
        fixture.actor.failure(fixture.worker),
        Some(ActorFailure::Panicked)
    );
    let releases = fixture
        .probe
        .actions
        .iter()
        .filter(|action| **action == DestinationAction::ReleaseAll)
        .count();
    assert_eq!(releases, 3);
    assert!(!fixture.actor.cleanup_pending());
}

#[test]
fn a_thread_that_ends_without_a_reason_panicked() {
    let mut actor = DestinationActor::start_after_local_enable(false).ok().unwrap();
    assert_eq!(actor.failure(Worker::Running), None);
    assert_eq!(actor.failure(Worker::Ended), Some(ActorFailure::Panicked));
    actor.request_stop();
    assert_eq!(actor.failure(Worker::Ended), Some(ActorFailure::Panicked));
}

#[test]
fn the_handoff_is_sent_once_and_only_to_a_ready_worker() {
    let mut early = DestinationActor::start_after_local_enable(false).ok().unwrap();
    assert_eq!(
        early.handoff_ready(Worker::Running),
        Err(ActorFailure::Startup)
    );
    let mut fixture = Fixture::ready(Probe::default());
    fixture.actor.handoff_ready(fixture.worker).unwrap();
    assert_eq!(
        fixture.actor.handoff_ready(fixture.worker),
        Err(ActorFailure::Startup)
    );
    let mut fixture = Fixture::ready(Probe::default());
    assert_eq!(
        fixture.actor.handoff_queued(Queued::Disconnected),
        Err(ActorFailure::PeerGone)
    );
}

#[test]
fn changed_displays_are_told_from_other_surroundings() {
    let mut status = Status::new();
    assert_eq!(status.validated(false, true), StartupAction::CleanUp);
    assert_eq!(status.failure(), Some(ActorFailure::LocalDisplaysChanged));
    let mut status = Status::new();
    assert_eq!(status.revalidated(false, false), StartupAction::CleanUp);
    assert_eq!(status.failure(), Some(ActorFailure::Native));
    let mut status = Status::new();
    assert_eq!(
        status.constructed(Constructed::Failed, false),
        StartupAction::Return
    );
    assert_eq!(status.failure(), Some(ActorFailure::Native));
    let mut status = Status::new();
    assert_eq!(
        status.handoff(Handoff::Disconnected, false),
        StartupAction::AwaitHandoff
    );
    assert_eq!(status.failure(), Some(ActorFailure::PeerGone));
}

#[test]
fn queues_that_fail_stop_the_actor() {
    let mut fixture = Fixture::started(Probe::default());
    assert_eq!(
        fixture.actor.submitted(Queued::Full),
        Err(ActorFailure::QueueFull)
    );
    let mut fixture = Fixture::started(Probe::default());
    let response = frame(1, 1, Message::Pong(1));
    assert_eq!(
        fixture.actor.try_response(
            Worker::Running,
            Polled::Frame(response.clone()),
            Worker::Running
        ),
        Ok(Some(response))
    );
    assert_eq!(
        fixture
            .actor
            .try_response(Worker::Running, Polled::Empty, Worker::Running),
        Ok(None)
    );
    assert_eq!(
        fixture
            .actor
            .try_response(Worker::Running, Polled::Disconnected, Worker::Running),
        Err(ActorFailure::PeerGone)
    );
    let mut status = Status::new();
    frame_queued(&mut status, Queued::Full);
    assert_eq!(status.failure(), Some(ActorFailure::QueueFull));
}

#[test]
fn each_stream_has_its_own_numbers() {
    let mut status = Status::new();
    let one = SessionEpoch::new(1).unwrap();
    let two = SessionEpoch::new(2).unwrap();
    let mut sequences = OutputSequences {
        control: 7,
        input: 5,
        epoch: one,
    };
    let ping = sequences
        .next_frame(Message::Ping(1), one, one, &mut status)
        .unwrap();
    assert_eq!((ping.epoch, ping.sequence), (one, 7));
    let answer = sequences
        .next_frame(Message::ReleaseAck, one, two, &mut status)
        .unwrap();
    assert_eq!((answer.epoch, answer.sequence), (two, 0));
    assert_eq!((sequences.control, sequences.input), (8, 1));
    sequences.control = u64::MAX;
    assert_eq!(
        sequences.next_frame(Message::Ping(2), one, two, &mut status),
        None
    );
    assert_eq!(status.failure(), Some(ActorFailure::SequenceExhausted));
}

#[test]
fn batches_are_counted_by_their_size() {
    let mut fixture = Fixture::started(Probe::default());
    fixture.submit(activation());
    fixture.submit(press(1, 4));
    fixture.submit(press(2, 5));
    assert!(fixture.pass(fixture.now));
    fixture.submit(press(3, 6));
    assert!(fixture.pass(fixture.now));
    let stats = fixture.actor.stats();
    assert_eq!(stats.frames, 4);
    assert_eq!(stats.batch_max, 3);
    assert_eq!(stats.batch_buckets, [1, 1, 0, 0]);
    assert_eq!(ReceiverStats::default().frames, 0);
}

#[test]
fn slow_batches_are_counted() {
    let mut status = Status::new();
    let pass = ReceiverLoop::new();
    assert_eq!(pass.measured(&mut status, 2_000), LoopAction::Wake);
    assert_eq!(status.stats.slow_applies, 0);
    assert_eq!(pass.measured(&mut status, 2_001), LoopAction::Wake);
    assert_eq!(status.stats.slow_applies, 1);
    assert_eq!(status.stats.apply_max_micros, 2_001);
    assert_eq!(micros_since(from_micros(7), from_micros(3)), 4);
}

#[test]
fn a_refused_frame_stops_the_worker_with_its_rule() {
    let mut fixture = Fixture::started(Probe::default());
    fixture.submit(press(1, 4));
    assert!(fixture.pass(fixture.now));
    assert_eq!(
        fixture.actor.failure(fixture.worker),
        Some(ActorFailure::Receiver)
    );
    assert_eq!(
        fixture.actor.status.last_receiver_failure,
        Some(ReceiverFailure::InvalidEpoch)
    );
    assert!(!fixture.pass(fixture.now));
}

#[test]
fn each_rule_has_its_code() {
    assert_eq!(
        receiver_failure_code(ReceiverFailure::Health(HealthError::ClockRegression)),
        20
    );
    assert_eq!(receiver_failure_code(ReceiverFailure::InvalidGesture), 34);
    assert_eq!(last_receiver_failure(None), 0);
    assert_eq!(
        last_receiver_failure(Some(ReceiverFailure::InvalidSequence)),
        25
    );
}

#[test]
fn cleanup_stays_pending_until_a_release_succeeds() {
    let mut status = Status::new();
    let mut probe = Probe {
        failing_releases: 2,
        ..Probe::default()
    };
    let mut step = cleanup_step(&mut status, None);
    let mut waits = 0;
    assert_eq!(step, CleanupStep::Release);
    while step != CleanupStep::Done {
        assert!(status.cleanup_pending);
        if step == CleanupStep::WaitThenRelease {
            waits += 1;
        }
        let failed = probe.apply(DestinationAction::ReleaseAll).is_err();
        step = cleanup_step(&mut status, Some(failed));
    }
    assert_eq!(waits, 2);
    assert!(!status.cleanup_pending);
}
