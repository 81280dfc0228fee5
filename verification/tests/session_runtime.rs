use monhop_transport::protocol::{
    DeviceId, DisplayDescription, DisplayId, DisplayTopology, Frame, FrameScope, Message, Point,
    SessionEpoch, SessionPurpose,
};
use monhop_transport::session::{
    ActorDetail, Route, SessionFailure, SessionHalf, SessionProgress, SessionScopes,
    SessionStartupFailure, StopReason,
};
use monhop_transport::session_actor::{ReceiverStats, SESSION_QUEUE_CAPACITY};
use monhop_transport::session_runtime::{
    begin_session, final_result, frame_kind, initial_display, show_control, total_holds,
    validate_topology, Action, CaptureEnd, CleanupPending, ControlState, Coordinator, FinishStep,
    FrameKind, LayoutDisplay, Outcome, Renewal, Reply, SessionStart, SourceState, Ticket, Wake,
    WorkerReport, DRAIN_LIMIT, POINTER_POLL_INTERVAL,
};
use monhop_transport::time::{from_millis, Duration};

const LIMIT: Duration = 250_000_000;


const LOCAL: DeviceId = DeviceId([1; 16]);
const PEER: DeviceId = DeviceId([2; 16]);

const QUIET: WorkerReport = WorkerReport {
    stopping: false,
    deliberate: false,
    capture_stop: None,
    capture_finished: false,
    destination: None,
    detail: ActorDetail {
        receiver: None,
        step: 0,
    },
    startup_finished: false,
};

const IDLE_SOURCE: SourceState = SourceState {
    is_local: true,
    is_held: false,
    capture_is_remote: false,
    floor_is_free: false,
};

const SETTLED: Outcome = Outcome {
    submitted: None,
    pending_since: None,
};

fn placed(id: u64, machine: DeviceId, primary: bool, shift: Point) -> LayoutDisplay {
    LayoutDisplay {
        id: DisplayId(id),
        machine,
        in_use: true,
        primary,
        logical_size: Point { x: 100, y: 50 },
        native_width: 200,
        native_height: 100,
        scale_factor: 2,
        shift,
    }
}

fn described(id: u64) -> DisplayDescription {
    DisplayDescription {
        id: DisplayId(id),
        name: "fixture".to_string(),
        native_width: 200,
        native_height: 100,
        logical_origin: Point { x: 0, y: 0 },
        logical_size: Point { x: 100, y: 50 },
        logical_end: Point { x: 100, y: 50 },
        scale_factor: 2,
        is_primary: true,
        monitor: None,
    }
}

fn topology(ids: &[u64]) -> DisplayTopology {
    DisplayTopology::new(ids.iter().map(|id| described(*id)).collect())
}

const STILL: Point = Point { x: 0, y: 0 };
const MOVED: Point = Point { x: 100, y: 7 };

fn layout() -> Vec<LayoutDisplay> {
    vec![
        placed(1, LOCAL, false, STILL),
        placed(2, LOCAL, true, STILL),
        placed(3, PEER, true, MOVED),
        placed(4, PEER, false, MOVED),
    ]
}

fn validated(layout: &[LayoutDisplay]) -> Result<Point, SessionFailure> {
    validate_topology(layout, &topology(&[1, 2]), LOCAL, &topology(&[3, 4]), PEER)
}

#[test]
fn the_pointer_starts_on_the_primary_display_in_use() {
    let mut displays = layout();
    assert_eq!(initial_display(&displays, LOCAL), Some(DisplayId(2)));
    displays[1].in_use = false;
    assert_eq!(initial_display(&displays, LOCAL), Some(DisplayId(1)));
    displays[0].in_use = false;
    assert_eq!(initial_display(&displays, LOCAL), None);
    assert_eq!(initial_display(&displays, PEER), Some(DisplayId(3)));
}

#[test]
fn only_a_translation_of_the_peer_block_is_accepted() {
    assert_eq!(validated(&layout()), Ok(MOVED));
    let refused = Err(SessionFailure::InvalidLayout);
    let mut moved_local = layout();
    moved_local[0].shift = MOVED;
    assert_eq!(validated(&moved_local), refused);
    let mut torn = layout();
    torn[3].shift = STILL;
    assert_eq!(validated(&torn), refused);
    let mut foreign = layout();
    foreign[2].machine = LOCAL;
    assert_eq!(validated(&foreign), refused);
    let mut resized = layout();
    resized[1].native_width = 201;
    assert_eq!(validated(&resized), refused);
    let mut scaled = layout();
    scaled[3].scale_factor = 3;
    assert_eq!(validated(&scaled), refused);
    let mut missing = layout();
    missing.pop();
    assert_eq!(validated(&missing), refused);
    let mut extra = layout();
    extra.push(placed(9, PEER, false, MOVED));
    assert_eq!(validated(&extra), refused);
    let alone = vec![
        placed(1, LOCAL, false, STILL),
        placed(2, LOCAL, true, STILL),
    ];
    assert_eq!(
        validate_topology(&alone, &topology(&[1, 2]), LOCAL, &topology(&[]), PEER),
        refused
    );
}

#[test]
fn a_session_begins_only_for_sharing_with_a_usable_layout() {
    let begin = |purpose, layout: &[LayoutDisplay]| {
        begin_session(
            purpose,
            layout,
            &topology(&[1, 2]),
            LOCAL,
            &topology(&[3, 4]),
            PEER,
        )
    };
    assert_eq!(
        begin(SessionPurpose::Share, &layout()),
        Ok(SessionStart {
            display: DisplayId(2),
            peer_offset: MOVED
        })
    );
    assert_eq!(
        begin(SessionPurpose::Setup, &layout()),
        Err(SessionFailure::Destination)
    );
    let mut unused = layout();
    unused[0].in_use = false;
    unused[1].in_use = false;
    assert_eq!(
        begin(SessionPurpose::Share, &unused),
        Err(SessionFailure::InvalidLayout)
    );
}

fn frame(scope: FrameScope, message: Message) -> Frame {
    Frame {
        scope,
        ..Frame::new(SessionEpoch::new(1).unwrap(), 0, message)
    }
}

#[test]
fn frames_are_told_apart_by_direction_and_content() {
    let scopes = SessionScopes::new(LOCAL, PEER).unwrap();
    for (scope, message, kind) in [
        (
            FrameScope::Connection,
            Message::Disconnect,
            FrameKind::Goodbye,
        ),
        (
            FrameScope::Connection,
            Message::SessionReady,
            FrameKind::Stray,
        ),
        (scopes.outbound, Message::SessionReady, FrameKind::Outbound),
        (
            scopes.inbound,
            Message::SessionReady,
            FrameKind::InboundControl,
        ),
        (scopes.inbound, Message::Ping(1), FrameKind::InboundControl),
        (scopes.inbound, Message::Disconnect, FrameKind::Inbound),
    ] {
        assert_eq!(frame_kind(&frame(scope, message), scopes), kind);
    }
}

/// A coordinator with the actions it took, driven by the replies it is given.
struct Driven {
    coordinator: Coordinator,
}

impl Driven {
    fn new() -> Driven {
        Driven {
            coordinator: Coordinator::new(0, LIMIT),
        }
    }

    /// Expects the action and answers it.
    fn step(&mut self, action: Action, reply: Reply) {
        assert_eq!(self.coordinator.action, action);
        self.coordinator.advance(reply);
    }

    fn wake(&mut self, wake: Wake, now: Duration, report: WorkerReport) {
        self.step(Action::Wait, Reply::Woke(wake, now));
        self.step(Action::Observe, Reply::Workers(report));
    }

    fn polled(&mut self) {
        self.step(Action::Poll(SessionHalf::Outbound), Reply::Nothing);
        self.step(Action::Poll(SessionHalf::Inbound), Reply::Nothing);
    }

    /// Up to both native workers, with the directions still starting.
    fn with_workers() -> Driven {
        let mut driven = Driven::new();
        driven.wake(Wake::Capture, 1, QUIET);
        driven.polled();
        driven.step(Action::AskHealth(SessionHalf::Outbound), Reply::Is(true));
        driven.step(Action::AskHealth(SessionHalf::Inbound), Reply::Is(true));
        driven.step(Action::ClaimNative, Reply::Is(true));
        driven.step(Action::StartCapture, Reply::Done);
        driven.wake(
            Wake::Capture,
            2,
            WorkerReport {
                startup_finished: true,
                ..QUIET
            },
        );
        driven.step(Action::JoinCapture, Reply::Done);
        driven.step(Action::StartDestination, Reply::Done);
        driven.polled();
        driven.step(Action::AskNativeReady, Reply::Is(true));
        driven.step(Action::AskAnnounce(SessionHalf::Inbound), Reply::Is(true));
        driven.step(Action::Announce(SessionHalf::Inbound), Reply::Done);
        driven.step(Action::AskAnnounce(SessionHalf::Outbound), Reply::Is(true));
        driven.step(Action::Announce(SessionHalf::Outbound), Reply::Done);
        driven.step(Action::ReadyCapture, Reply::Done);
        driven.step(Action::NextEvent, Reply::Event);
        driven.step(Action::Bookkeep, Reply::Done);
        driven.step(Action::NextEvent, Reply::Nothing);
        driven.step(Action::AskReady(SessionHalf::Outbound), Reply::Is(false));
        driven.step(Action::NextResponse, Reply::Nothing);
        assert_eq!(driven.coordinator.action, Action::Wait);
        driven
    }

    /// Hands the directions over on the way of a wake.
    fn hand_over(&mut self) {
        self.step(Action::AskNativeReady, Reply::Is(false));
        self.step(Action::ReadyCapture, Reply::Done);
        self.step(Action::NextEvent, Reply::Nothing);
        self.step(Action::AskReady(SessionHalf::Outbound), Reply::Is(true));
        self.step(Action::AskReady(SessionHalf::Inbound), Reply::Is(true));
        self.step(Action::Retire(SessionHalf::Outbound), Reply::Done);
        self.step(Action::Retire(SessionHalf::Inbound), Reply::Done);
        self.step(Action::HandOff, Reply::Done);
    }

    fn started() -> Driven {
        let mut driven = Driven::with_workers();
        driven.wake(Wake::Capture, 3, QUIET);
        driven.polled();
        driven.hand_over();
        driven.step(Action::StampStart, Reply::Now(4));
        driven.finish_responses();
        driven
    }

    fn finish_responses(&mut self) {
        self.step(Action::NextResponse, Reply::Nothing);
        self.step(Action::AskStarted, Reply::Is(true));
        self.step(Action::MarkStarted, Reply::Done);
    }

    /// A tick of a started session up to its housekeeping.
    fn tick(&mut self, now: Duration) {
        self.wake(Wake::Tick, now, QUIET);
        self.step(Action::ReadyCapture, Reply::Done);
        self.step(Action::NextEvent, Reply::Nothing);
        self.finish_responses();
        self.step(Action::StampTick, Reply::Now(now));
        self.step(Action::CheckIo, Reply::Done);
    }
}

#[test]
fn a_session_starts_its_workers_and_hands_over_once() {
    let driven = Driven::started();
    assert_eq!(driven.coordinator.action, Action::Wait);
    assert!(!driven.coordinator.is_starting);
    assert_eq!(driven.coordinator.started_at, Some(4));
}

#[test]
fn frames_that_come_early_are_kept_and_handed_over_in_number() {
    let mut driven = Driven::with_workers();
    for _ in 0..2 {
        driven.wake(Wake::Frame(FrameKind::Inbound), 3, QUIET);
        driven.step(Action::CountReceived, Reply::Done);
        driven.step(Action::AskEarly, Reply::Is(true));
        driven.step(Action::KeepFrame, Reply::Done);
        driven.polled();
        driven.step(Action::AskNativeReady, Reply::Is(false));
        driven.step(Action::ReadyCapture, Reply::Done);
        driven.step(Action::NextEvent, Reply::Nothing);
        driven.step(Action::AskReady(SessionHalf::Outbound), Reply::Is(false));
        driven.step(Action::NextResponse, Reply::Nothing);
    }
    assert_eq!(driven.coordinator.early_frames, 2);
    driven.wake(Wake::Capture, 4, QUIET);
    driven.polled();
    driven.hand_over();
    driven.step(Action::SubmitEarly, Reply::Done);
    driven.step(Action::SubmitEarly, Reply::Done);
    assert_eq!(driven.coordinator.action, Action::StampStart);
}

#[test]
fn too_many_early_frames_end_the_session() {
    let mut driven = Driven::with_workers();
    driven.coordinator.early_frames = SESSION_QUEUE_CAPACITY;
    driven.wake(Wake::Frame(FrameKind::Inbound), 3, QUIET);
    driven.step(Action::CountReceived, Reply::Done);
    driven.step(Action::AskEarly, Reply::Is(true));
    assert_eq!(
        driven.coordinator.action,
        Action::Stop(Some(SessionFailure::QueueFull))
    );
}

#[test]
fn a_goodbye_ends_a_session_cleanly_and_a_stray_frame_does_not() {
    let mut driven = Driven::started();
    driven.wake(Wake::Frame(FrameKind::Goodbye), 5, QUIET);
    assert_eq!(driven.coordinator.action, Action::Stop(None));
    driven
        .coordinator
        .advance(Reply::Failed(SessionFailure::Wire));
    assert_eq!(driven.coordinator.action, Action::Stop(None));
    let mut driven = Driven::new();
    driven.wake(Wake::Frame(FrameKind::Stray), 5, QUIET);
    assert_eq!(
        driven.coordinator.action,
        Action::Stop(Some(SessionFailure::Wire))
    );
}

#[test]
fn workers_that_end_end_the_session() {
    let ends = |report| {
        let mut driven = Driven::started();
        driven.wake(Wake::Tick, 5, report);
        driven.coordinator.action
    };
    assert_eq!(
        ends(WorkerReport {
            stopping: true,
            ..QUIET
        }),
        Action::Stop(Some(SessionFailure::Revoked))
    );
    assert_eq!(
        ends(WorkerReport {
            capture_stop: Some(StopReason::DisplaysChanged),
            ..QUIET
        }),
        Action::Stop(Some(SessionFailure::LocalDisplaysChanged))
    );
}

#[test]
fn a_capture_worker_that_never_comes_ends_the_session() {
    let starting = || {
        let mut driven = Driven::new();
        driven.wake(Wake::Capture, 1, QUIET);
        driven.polled();
        driven.step(Action::AskHealth(SessionHalf::Outbound), Reply::Is(true));
        driven.step(Action::AskHealth(SessionHalf::Inbound), Reply::Is(true));
        driven
    };
    let mut driven = starting();
    driven.step(Action::ClaimNative, Reply::Is(false));
    assert_eq!(
        driven.coordinator.action,
        Action::Stop(Some(SessionFailure::Startup(
            SessionStartupFailure::NativeOwnershipUnavailable
        )))
    );
    let mut driven = starting();
    driven.step(Action::ClaimNative, Reply::Is(true));
    driven.step(Action::StartCapture, Reply::Done);
    driven.wake(
        Wake::Tick,
        2,
        WorkerReport {
            startup_finished: true,
            ..QUIET
        },
    );
    driven.step(Action::JoinCapture, Reply::Lost);
    assert_eq!(
        driven.coordinator.action,
        Action::Stop(Some(SessionFailure::Startup(
            SessionStartupFailure::CaptureWorkerUnavailable
        )))
    );
    assert!(!driven.coordinator.capture_is_starting);
}

#[test]
fn one_iteration_takes_a_bounded_number_of_events_and_responses() {
    let mut driven = Driven::started();
    driven.wake(Wake::Capture, 5, QUIET);
    driven.step(Action::ReadyCapture, Reply::Done);
    let mut events = 0;
    while driven.coordinator.action == Action::NextEvent {
        driven.coordinator.advance(Reply::Event);
        driven.step(Action::SourceEvent, Reply::Applied(SETTLED));
        events += 1;
    }
    assert_eq!(events, DRAIN_LIMIT);
    let mut responses = 0;
    while driven.coordinator.action == Action::NextResponse {
        driven.coordinator.advance(Reply::Answer);
        driven.step(Action::SendResponse, Reply::Done);
        responses += 1;
    }
    assert_eq!(responses, SESSION_QUEUE_CAPACITY);
    assert_eq!(driven.coordinator.action, Action::AskStarted);
}

#[test]
fn a_control_change_has_to_be_confirmed_in_time() {
    let out = Outcome {
        submitted: Some(Ticket {
            revision: 7,
            issued: 10,
        }),
        pending_since: None,
    };
    let waiting = |now| {
        let mut driven = Driven::started();
        driven.tick(10);
        driven.step(Action::TickSource, Reply::Applied(out));
        driven.step(Action::AskPointer, Reply::Source(IDLE_SOURCE));
        driven.step(Action::AskRenewal, Reply::Source(IDLE_SOURCE));
        driven.step(Action::ShowControl, Reply::Done);
        driven.tick(now);
        driven
    };
    let mut driven = waiting(11);
    driven.step(Action::AskRevision, Reply::Revision(Some(7)));
    assert_eq!(driven.coordinator.action, Action::TickSource);
    assert_eq!(driven.coordinator.submitted, None);
    let mut driven = waiting(9 + LIMIT);
    driven.step(Action::AskRevision, Reply::Revision(Some(6)));
    assert_eq!(driven.coordinator.action, Action::TickSource);
    for (now, completed) in [(10 + LIMIT, Some(6)), (11, None)] {
        let mut driven = waiting(now);
        driven.step(Action::AskRevision, Reply::Revision(completed));
        assert_eq!(
            driven.coordinator.action,
            Action::Stop(Some(SessionFailure::Native))
        );
    }
}

#[test]
fn a_change_of_the_route_waits_a_bounded_time() {
    let pending = Outcome {
        submitted: None,
        pending_since: Some(10),
    };
    let routing = |now| {
        let mut driven = Driven::started();
        driven.tick(10);
        driven.step(Action::TickSource, Reply::Applied(pending));
        driven.step(Action::StampRoute, Reply::Now(now));
        driven
    };
    let mut driven = routing(9 + LIMIT);
    driven.step(Action::ApplyRoute, Reply::Routed(false, None));
    assert_eq!(driven.coordinator.pending_since, Some(10));
    let mut driven = routing(11);
    driven.step(Action::ApplyRoute, Reply::Routed(true, None));
    assert_eq!(driven.coordinator.pending_since, None);
    assert_eq!(
        routing(10 + LIMIT).coordinator.action,
        Action::Stop(Some(SessionFailure::Native))
    );
}

#[test]
fn the_pointer_is_polled_while_nobody_holds_the_floor() {
    let polled = |now, source| {
        let mut driven = Driven::started();
        driven.tick(now);
        driven.step(Action::TickSource, Reply::Applied(SETTLED));
        driven.step(Action::AskPointer, Reply::Source(source));
        driven.coordinator.action == Action::PollPointer
    };
    let free = SourceState {
        floor_is_free: true,
        ..IDLE_SOURCE
    };
    assert!(polled(POINTER_POLL_INTERVAL, free));
    assert!(!polled(POINTER_POLL_INTERVAL - 1, free));
    assert!(!polled(POINTER_POLL_INTERVAL, IDLE_SOURCE));
    assert!(!polled(
        POINTER_POLL_INTERVAL,
        SourceState {
            is_local: false,
            ..free
        }
    ));
    assert!(!polled(
        POINTER_POLL_INTERVAL,
        SourceState {
            capture_is_remote: true,
            ..free
        }
    ));
}

#[test]
fn the_suppression_is_renewed_while_it_is_in_force() {
    let remote = SourceState {
        is_local: false,
        capture_is_remote: true,
        ..IDLE_SOURCE
    };
    let renewing = |now, source| {
        let mut driven = Driven::started();
        driven.tick(now);
        driven.step(Action::TickSource, Reply::Applied(SETTLED));
        driven.step(Action::AskPointer, Reply::Source(source));
        driven.step(Action::AskRenewal, Reply::Source(source));
        driven
    };
    let late = from_millis(10_000);
    let ticket = Ticket {
        revision: 3,
        issued: late + 1,
    };
    let mut driven = renewing(late, remote);
    driven.step(Action::Renew, Reply::Renewed(Renewal::Ticket(ticket)));
    assert_eq!(driven.coordinator.submitted, Some(ticket));
    assert_eq!(driven.coordinator.last_renewed, late + 1);
    let mut driven = renewing(late, remote);
    driven.step(Action::Renew, Reply::Renewed(Renewal::ControlPending));
    assert_eq!(driven.coordinator.submitted, None);
    driven.step(Action::ShowControl, Reply::Done);
    assert_eq!(renewing(1, remote).coordinator.action, Action::ShowControl);
    let held = SourceState {
        is_held: true,
        ..remote
    };
    assert_eq!(renewing(late, held).coordinator.action, Action::ShowControl);
}

#[test]
fn the_owner_sees_who_holds_the_control_and_where() {
    let mut progress = SessionProgress::default();
    let outbound = ControlState {
        owner: Some(SessionHalf::Outbound),
        destination_display: Some(DisplayId(1)),
        target: Some(Route {
            display: DisplayId(3),
            local: false,
        }),
        source_is_held: false,
        destination_is_held: true,
    };
    show_control(&mut progress, outbound);
    assert_eq!(
        progress.active,
        Some(Route {
            display: DisplayId(3),
            local: false
        })
    );
    assert_eq!(progress.half, Some(SessionHalf::Outbound));
    assert!(progress.is_held());
    show_control(
        &mut progress,
        ControlState {
            owner: Some(SessionHalf::Inbound),
            destination_is_held: false,
            ..outbound
        },
    );
    assert_eq!(
        progress.active,
        Some(Route {
            display: DisplayId(1),
            local: true
        })
    );
    assert!(!progress.is_held());
}

#[test]
fn silences_of_both_directions_are_counted_together() {
    let receiver = ReceiverStats {
        holds: 4,
        held_max_millis: 70,
        ..ReceiverStats::default()
    };
    assert_eq!(total_holds(3, from_millis(50), &receiver), (7, 70));
    assert_eq!(total_holds(3, from_millis(90), &receiver), (7, 90));
}

#[test]
fn cleanup_waits_for_every_worker_until_its_deadline() {
    let clean = CleanupPending::observe(false, CaptureEnd::Done, false, false);
    assert_eq!(clean.finish(10, 5), FinishStep::Done);
    for pending in [
        CleanupPending::observe(true, CaptureEnd::Done, false, false),
        CleanupPending::observe(false, CaptureEnd::Running, false, false),
        CleanupPending::observe(false, CaptureEnd::Failed(1), false, false),
        CleanupPending::observe(false, CaptureEnd::Done, true, true),
        CleanupPending::observe(false, CaptureEnd::Done, false, true),
    ] {
        assert_eq!(pending.finish(4, 5), FinishStep::Wait);
        assert_eq!(pending.finish(5, 5), FinishStep::GiveUp);
    }
    assert!(!CleanupPending::observe(false, CaptureEnd::Done, true, true).injected_release_failed);
    assert_eq!(final_result(Ok(()), true), Ok(()));
    assert_eq!(
        final_result(Ok(()), false),
        Err(SessionFailure::NativeCleanup)
    );
    assert_eq!(
        final_result(Err(SessionFailure::Wire), true),
        Err(SessionFailure::Wire)
    );
}
