use monhop_transport::protocol::{
    DeliveryClass, DeviceId, DisplayDescription, DisplayId, DisplayTopology, Frame, FrameScope,
    Message, Motion, Point, SessionEpoch,
};
use monhop_transport::session::{
    check_local_displays, check_read_displays, classify_close, close_reason, destination_failure,
    peer_event, session_millis, settle_end, worker_end, ActorDetail, Arrived, ConnectionError,
    ConnectionStats, LinkClose, Queueing, SessionFailure, SessionHalf, SessionIo, SessionProgress,
    SessionScopes, StopReason, TickGap, CONTROL_CHANGED_REASON, DISPLAYS_CHANGED_REASON,
    NETWORK_REVOKED_REASON, SESSION_ENDED_REASON, SESSION_FAILED_REASON,
};
use monhop_transport::session_actor::ActorFailure;
use monhop_transport::session_receiver::ReceiverFailure;
use monhop_transport::time::{from_micros, from_millis, from_secs};

const NOTHING: ActorDetail = ActorDetail {
    receiver: None,
    step: 0,
};

fn closed(reason: &str) -> Option<ConnectionError> {
    Some(ConnectionError::ApplicationClosed(
        reason.as_bytes().to_vec(),
    ))
}

#[test]
fn a_failed_close_is_told_apart_from_an_ended_one() {
    assert_eq!(classify_close(&None), LinkClose::Open);
    assert_eq!(
        classify_close(&closed(SESSION_ENDED_REASON)),
        LinkClose::PeerEnded
    );
    assert_eq!(
        classify_close(&closed(SESSION_FAILED_REASON)),
        LinkClose::PeerFailed
    );
    assert_eq!(
        classify_close(&closed(NETWORK_REVOKED_REASON)),
        LinkClose::PeerRevoked
    );
    assert_eq!(
        classify_close(&closed(DISPLAYS_CHANGED_REASON)),
        LinkClose::PeerDisplaysChanged
    );
    assert_eq!(
        classify_close(&closed(CONTROL_CHANGED_REASON)),
        LinkClose::PeerControlChanged
    );
    assert_eq!(
        classify_close(&closed("anything else")),
        LinkClose::PeerClosed
    );
}

#[test]
fn an_end_without_a_reason_is_told_by_its_kind() {
    assert_eq!(
        classify_close(&Some(ConnectionError::TimedOut)),
        LinkClose::IdleTimeout
    );
    assert_eq!(
        classify_close(&Some(ConnectionError::LocallyClosed)),
        LinkClose::Local
    );
    assert_eq!(
        classify_close(&Some(ConnectionError::Other)),
        LinkClose::Transport
    );
}

#[test]
fn a_display_change_end_reaches_the_peer_as_a_display_change() {
    let changed = Err(SessionFailure::LocalDisplaysChanged);
    for deliberate in [false, true] {
        assert_eq!(
            classify_close(&closed(close_reason(&changed, deliberate, false))),
            LinkClose::PeerDisplaysChanged
        );
    }
    assert_eq!(
        classify_close(&closed(close_reason(
            &Err(SessionFailure::Native),
            false,
            false
        ))),
        LinkClose::PeerFailed
    );
    assert_eq!(
        classify_close(&closed(close_reason(
            &Err(SessionFailure::Revoked),
            true,
            false
        ))),
        LinkClose::PeerEnded
    );
}

#[test]
fn a_control_change_stop_closes_with_its_own_reason() {
    let revoked = Err(SessionFailure::Revoked);
    assert_eq!(close_reason(&revoked, true, true), CONTROL_CHANGED_REASON);
    assert_eq!(close_reason(&revoked, true, false), SESSION_ENDED_REASON);
    // A non-deliberate end never reads as a control change, whatever the flag says.
    assert_eq!(close_reason(&revoked, false, true), SESSION_FAILED_REASON);
    assert_eq!(
        classify_close(&closed(close_reason(&revoked, true, true))),
        LinkClose::PeerControlChanged
    );
}

fn coordinate(value: f64) -> i64 {
    value.to_bits() as i64
}

fn displays() -> DisplayTopology {
    DisplayTopology::new(vec![DisplayDescription {
        id: DisplayId(1),
        name: "fixture".to_string(),
        native_width: 100,
        native_height: 100,
        logical_origin: Point { x: 0, y: 0 },
        logical_size: Point {
            x: coordinate(100.0),
            y: coordinate(100.0),
        },
        logical_end: Point {
            x: coordinate(100.0),
            y: coordinate(100.0),
        },
        scale_factor: coordinate(1.0),
        is_primary: true,
        monitor: None,
    }])
}

#[test]
fn an_unreadable_display_list_is_a_display_change() {
    let displays = displays();
    assert_eq!(
        check_read_displays(&displays, None),
        Err(SessionFailure::LocalDisplaysChanged)
    );
    assert_eq!(
        check_read_displays(&displays, Some(&displays.clone())),
        Ok(())
    );
}

#[test]
fn changed_geometry_is_a_display_change() {
    let mut changed = displays();
    changed.displays[0].native_width = 200;
    assert_eq!(
        check_local_displays(&displays(), &changed),
        Err(SessionFailure::LocalDisplaysChanged)
    );
    let mut renamed = displays();
    renamed.displays[0].name = "other".to_string();
    assert_eq!(check_local_displays(&displays(), &renamed), Ok(()));
}

/// The platform records the capture stop and marks the revocation; the loop may see either
/// first, and both orders must end as a display change.
#[test]
fn a_capture_display_change_outranks_its_revocation_in_both_orders() {
    let stop = Some(StopReason::DisplaysChanged);
    assert_eq!(
        worker_end(true, false, stop, false, None, NOTHING),
        Some(SessionFailure::LocalDisplaysChanged)
    );

    let seen = worker_end(true, false, None, false, None, NOTHING)
        .expect("revocation ends the loop");
    assert_eq!(seen, SessionFailure::Revoked);
    assert_eq!(
        settle_end(Err(seen), false, stop, None),
        Err(SessionFailure::LocalDisplaysChanged)
    );
}

#[test]
fn a_destination_display_change_outranks_revocation_and_a_user_stop_outranks_both() {
    let watchdog = Some(ActorFailure::LocalDisplaysChanged);
    assert_eq!(
        worker_end(true, false, None, false, watchdog, NOTHING),
        Some(SessionFailure::LocalDisplaysChanged)
    );
    assert_eq!(
        settle_end(Err(SessionFailure::Revoked), false, None, watchdog),
        Err(SessionFailure::LocalDisplaysChanged)
    );
    let captured = Some(StopReason::DisplaysChanged);
    assert_eq!(
        worker_end(true, true, captured, true, None, NOTHING),
        Some(SessionFailure::Revoked)
    );
    assert_eq!(
        settle_end(Err(SessionFailure::Revoked), true, captured, None),
        Err(SessionFailure::Revoked)
    );
    assert_eq!(
        worker_end(
            false,
            false,
            Some(StopReason::NativeFailure),
            true,
            None,
            NOTHING
        ),
        Some(SessionFailure::Native)
    );
    assert_eq!(worker_end(false, false, None, false, None, NOTHING), None);
    assert_eq!(settle_end(Ok(()), false, captured, None), Ok(()));
}

#[test]
fn a_session_ends_deliberately_only_once_its_owner_says_so() {
    let mut progress = SessionProgress::default();
    assert!(!progress.ended_deliberately());
    progress.end_deliberately();
    assert!(progress.ended_deliberately());
    assert!(progress.clone().ended_deliberately());
}

#[test]
fn a_stopped_destination_is_named_by_its_rule_or_its_step() {
    let detail = ActorDetail {
        receiver: Some(ReceiverFailure::InvalidSequence),
        step: 9,
    };
    assert_eq!(
        destination_failure(ActorFailure::LocalDisplaysChanged, detail),
        SessionFailure::LocalDisplaysChanged
    );
    assert!(matches!(
        destination_failure(ActorFailure::Receiver, detail),
        SessionFailure::DestinationActor(ActorFailure::Receiver, code) if code >= 20
    ));
    assert_eq!(
        destination_failure(ActorFailure::Native, detail),
        SessionFailure::DestinationActor(ActorFailure::Native, 9)
    );
}

#[test]
fn progress_tells_where_the_control_is() {
    let mut progress = SessionProgress::default();
    assert!(!progress.diagnostics().held);
    progress.route(Some(DisplayId(3)), true);
    progress.active_half(Some(SessionHalf::Inbound));
    progress.hold(true);
    progress.mark_started();
    let shown = progress.diagnostics();
    assert_eq!(shown.active_display, Some(DisplayId(3)));
    assert_eq!(shown.active_is_local, Some(true));
    assert_eq!(shown.active_half, Some(SessionHalf::Inbound));
    assert!(shown.held);
    progress.route(None, true);
    assert_eq!(progress.diagnostics().active_display, None);
    assert_eq!(progress.diagnostics().active_is_local, None);
}

fn scopes() -> SessionScopes {
    SessionScopes::new(DeviceId([1; 16]), DeviceId([2; 16])).unwrap()
}

fn frame(scope: FrameScope, message: Message) -> Frame {
    Frame {
        scope,
        epoch: SessionEpoch::new(1).unwrap(),
        sequence: 1,
        delivery: DeliveryClass::Reliable,
        message,
    }
}

#[test]
fn both_computers_name_the_directions_alike() {
    let lower = scopes();
    let higher = SessionScopes::new(DeviceId([2; 16]), DeviceId([1; 16])).unwrap();
    assert_eq!(
        SessionScopes::new(DeviceId([1; 16]), DeviceId([1; 16])),
        Err(SessionFailure::Destination)
    );
    assert_eq!(lower.outbound, FrameScope::LowerControlsHigher);
    assert_eq!(lower.outbound, higher.inbound);
    assert_eq!(lower.inbound, higher.outbound);
}

#[test]
fn frames_are_counted_on_their_way_to_the_peer() {
    let mut io = SessionIo::new(scopes());
    let mut progress = SessionProgress::default();
    assert_eq!(io.send(Queueing::Accepted), Ok(()));
    assert_eq!(io.send(Queueing::Full), Err(SessionFailure::QueueFull));
    assert_eq!(io.send(Queueing::Closed), Err(SessionFailure::Wire));
    assert_eq!(io.queued, 1);
    let motion = frame(
        FrameScope::Connection,
        Message::Motion(Motion::Relative(Point { x: 0, y: 0 })),
    );
    let outbound = io.send_outbound(motion.clone());
    assert_eq!(outbound.scope, FrameScope::LowerControlsHigher);
    assert_eq!(
        io.send_inbound(motion).scope,
        FrameScope::HigherControlsLower
    );
    io.wrote(&outbound, &mut progress);
    io.wrote(
        &frame(FrameScope::LowerControlsHigher, Message::Ping(1)),
        &mut progress,
    );
    assert_eq!(io.written, 2);
    assert_eq!(progress.diagnostics().sent_events, 1);
    assert!(io.goes_as_datagram(&frame(FrameScope::Connection, Message::Pong(1))));
    assert!(!io.goes_as_datagram(&outbound));
}

#[test]
fn what_arrives_is_a_frame_of_the_session_or_ends_it() {
    let io = SessionIo::new(scopes());
    let ping = frame(FrameScope::HigherControlsLower, Message::Ping(1));
    assert_eq!(io.next_frame(Arrived::Frame(ping.clone())), Ok(ping));
    assert_eq!(
        io.next_frame(Arrived::StreamOpened),
        Err(SessionFailure::UnexpectedStream)
    );
    assert_eq!(
        io.next_frame(Arrived::InvalidDatagram),
        Err(SessionFailure::UnexpectedStream)
    );
    for arrived in [
        Arrived::StreamFailed,
        Arrived::DatagramsClosed,
        Arrived::ConnectionClosed,
    ] {
        assert_eq!(io.next_frame(arrived), Err(SessionFailure::Wire));
    }
    assert_eq!(peer_event(true), SessionFailure::UnexpectedStream);
    assert_eq!(peer_event(false), SessionFailure::Wire);
}

#[test]
fn the_end_report_names_the_link() {
    let io = SessionIo {
        scopes: scopes(),
        queued: 5,
        written: 4,
    };
    let stats = ConnectionStats {
        rtt: from_millis(3),
        lost_packets: 1,
        sent_packets: 2,
        received_datagrams: 3,
        congestion_events: 4,
    };
    let link = io.link_stats(70, 80, (2, 90), None, stats, &closed("network revoked"));
    assert_eq!(link.rtt_micros, 3_000);
    assert_eq!((link.queued_frames, link.written_frames), (5, 4));
    assert_eq!((link.holds, link.held_max_millis), (2, 90));
    assert_eq!(link.close, LinkClose::PeerRevoked);
    let mut progress = SessionProgress::default();
    assert_eq!(io.check(&mut progress, from_millis(2), false, false), Ok(()));
    assert_eq!(progress.diagnostics().round_trip_micros, 2_000);
    assert_eq!(
        io.check(&mut progress, 0, true, false),
        Err(SessionFailure::Wire)
    );
    assert_eq!(
        io.check(&mut progress, 0, false, true),
        Err(SessionFailure::Wire)
    );
}

#[test]
fn the_longest_pause_is_kept() {
    let mut gap = TickGap::new(from_millis(10));
    gap.observe(from_millis(12));
    gap.observe(from_millis(20));
    gap.observe(from_millis(21));
    assert_eq!(gap.max_micros(), 8_000);
    gap.observe(from_micros(1));
    assert_eq!(gap.max_micros(), 8_000);
    assert_eq!(session_millis(None, from_secs(5)), 0);
    assert_eq!(session_millis(Some(from_secs(2)), from_secs(5)), 3_000);
    assert_eq!(session_millis(Some(from_secs(6)), from_secs(5)), 0);
}
