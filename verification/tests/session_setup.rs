use monhop_transport::addr::{Ipv4Addr, SocketAddrV4};
use monhop_transport::crypto::{CertificateFingerprint, DeviceIdentity, SecretBytes};
use monhop_transport::display_arrangement::{Edge, EdgeLink, Overlap, Passage};
use monhop_transport::guarded_endpoint::native::Adapter;
use monhop_transport::identity_store::{
    PeerStoreHistory, ProtectedPeerStore, StorageError, StoredPeer,
};
use monhop_transport::io_error::ErrorKind;
use monhop_transport::pairing::{ConfirmedPeerRecord, PairingOffer, PAIRING_PORT};
use monhop_transport::protocol::{
    ControlPermissions, DeviceId, DisplayDescription, DisplayId, DisplayTopology, Platform, Point,
    SessionPurpose,
};
use monhop_transport::session_handshake::{map_wire_error, HandshakeError, SessionWireError};
use monhop_transport::session_layout::{sync_direction, LayoutRole, SyncDirection};
use monhop_transport::session_setup::{
    bind_failure, cancel_or_endpoint_revoked, check_cancel, confirmed_peer, connect_mode,
    connection_failure, dial_until_negotiated, handshake_failure, identity_changed, is_transient,
    note_attempt_failure, prepare_endpoint, prepare_identity, refused_identity, selected_network,
    Attempt, AttemptLog, AttemptReport, CancellationWatch, ConnectMode, ConnectionFailure,
    DialStep, InspectedPeer, Machine, Rect, SetupFailure, Signals, Standing, StandingSlot, WatchAction,
    ACCESS_DENIED_CODE, BAD_CERTIFICATE_CODE, STOP_GRACE,
};
use monhop_transport::time::{from_millis, from_secs, Duration};

/// A watch over two signals, looked at every ten milliseconds of a clock that the test moves.
struct Watched {
    watch: CancellationWatch,
    now: Duration,
    cancel_revoked: bool,
    cancel_stopping: bool,
    native_revoked: bool,
    native_stopping: bool,
    endpoint_revoked_at: Option<Duration>,
}

impl Watched {
    fn start() -> Watched {
        Watched {
            watch: CancellationWatch::start(),
            now: 0,
            cancel_revoked: false,
            cancel_stopping: false,
            native_revoked: false,
            native_stopping: false,
            endpoint_revoked_at: None,
        }
    }

    fn look(&mut self) {
        let signals = Signals {
            cancel_revoked: self.cancel_revoked,
            native_revoked: self.native_revoked,
            native_stopping: self.native_stopping,
        };
        match self.watch.look(self.now, signals) {
            WatchAction::Revoke => {
                self.native_revoked = true;
                self.cancel_revoked = true;
                self.endpoint_revoked_at = Some(self.now);
            }
            WatchAction::RequestStop => {
                self.native_stopping = true;
                self.cancel_stopping = true;
            }
            WatchAction::Wait => {}
        }
    }

    fn run(&mut self, length: Duration) {
        let end = self.now + length;
        while self.now < end && self.endpoint_revoked_at.is_none() {
            self.look();
            self.now += from_millis(10);
        }
    }
}

#[test]
fn revoked_authorization_is_rejected() {
    assert_eq!(check_cancel(true), Err(SetupFailure::Cancelled));
    assert_eq!(check_cancel(false), Ok(()));
}

#[test]
fn cancellation_reaches_endpoint_without_polling_an_async_runtime() {
    let mut watch = Watched::start();
    watch.cancel_revoked = true;
    watch.run(from_secs(1));
    assert!(watch.endpoint_revoked_at.is_some());
}

#[test]
fn a_deliberate_cancel_stops_the_session_first_and_revokes_after_the_grace() {
    let mut watch = Watched::start();
    watch.run(from_millis(50));
    let cancelled_at = watch.now;
    watch.cancel_revoked = true;
    watch.run(from_secs(2));
    let revoked_at = watch.endpoint_revoked_at.unwrap();
    assert!(revoked_at - cancelled_at >= STOP_GRACE);
    assert!(watch.native_revoked);
}

#[test]
fn a_native_stop_request_stops_the_session_first_and_revokes_after_the_grace() {
    let mut watch = Watched::start();
    let requested_at = watch.now;
    watch.native_stopping = true;
    watch.run(from_millis(60));
    assert!(watch.cancel_stopping);
    assert!(!watch.cancel_revoked);
    watch.run(from_secs(2));
    assert!(watch.endpoint_revoked_at.unwrap() - requested_at >= STOP_GRACE);
    assert!(watch.native_revoked);
    assert!(watch.cancel_revoked);
}

#[test]
fn a_deliberate_cancel_requests_the_stop_before_the_grace_ends() {
    let mut watch = Watched::start();
    watch.cancel_revoked = true;
    watch.run(from_millis(60));
    assert!(watch.native_stopping);
    assert!(!watch.native_revoked);
}

#[test]
fn atomic_native_power_revocation_reaches_endpoint_and_local_cancel_off_callback() {
    let mut watch = Watched::start();
    watch.native_revoked = true;
    watch.run(from_secs(1));
    assert_eq!(watch.endpoint_revoked_at, Some(0));
    assert!(watch.cancel_revoked);
    assert!(watch.native_revoked);
}

#[test]
fn completed_watch_joins_before_intentional_endpoint_revocation() {
    let mut watch = Watched::start();
    watch.run(from_millis(50));
    // The watch is over before the endpoint is revoked, so nobody looks any more.
    watch.native_revoked = true;
    assert!(!watch.cancel_revoked);
    assert_eq!(watch.endpoint_revoked_at, None);
}

/// The pinned port takes one owner at a time.
struct Fake {
    id: usize,
    stopping: bool,
}

#[test]
fn an_untouched_endpoint_serves_the_next_session_without_a_rebind() {
    let mut slot = StandingSlot::new();
    assert!(matches!(slot.take_or_bind(false), Standing::Bind));
    let first = Fake {
        id: 1,
        stopping: false,
    };
    let stopping = first.stopping;
    assert!(slot.keep(first, stopping).is_none());
    match slot.take_or_bind(false) {
        Standing::Serve(reused) => assert_eq!(reused.id, 1),
        _ => panic!("an untouched endpoint is never rebound"),
    }
}

#[test]
fn an_endpoint_asked_to_stop_is_retired_by_reclaim_and_connect_before_any_bind() {
    // Reclaim: an ended session's endpoint whose signal stopped retires and is let go.
    let mut slot = StandingSlot::new();
    let ended = Fake {
        id: 1,
        stopping: true,
    };
    let stopping = ended.stopping;
    assert_eq!(slot.keep(ended, stopping).unwrap().id, 1);
    assert!(slot.held.is_none());
    assert!(matches!(slot.take_or_bind(false), Standing::Bind));

    // Connect: a failed attempt handed its endpoint back; it stops before the next attempt.
    let mut slot = StandingSlot::new();
    slot.hold(Fake {
        id: 1,
        stopping: false,
    });
    match slot.take_or_bind(true) {
        Standing::RetireThenBind(retired) => assert_eq!(retired.id, 1),
        _ => panic!("the retired endpoint releases the port before the bind"),
    }
    assert!(slot.held.is_none());
}

#[test]
fn a_disagreement_ends_the_dial_while_reach_failures_keep_it_going() {
    assert!(!is_transient(SetupFailure::PurposeMismatch));
    assert!(!is_transient(SetupFailure::VersionMismatch));
    assert!(!is_transient(SetupFailure::ChangedSinceInspection));
    assert!(!is_transient(SetupFailure::Cancelled));
    assert!(is_transient(SetupFailure::Connection));
    assert!(is_transient(SetupFailure::Handshake));
    assert!(is_transient(SetupFailure::PortBusy));
}

#[test]
fn a_purpose_disagreement_reaches_the_caller_from_the_handshake() {
    assert_eq!(
        handshake_failure(HandshakeError::PurposeMismatch),
        SetupFailure::PurposeMismatch
    );
    // Different saved control maps must be agreed again over the setup link.
    assert_eq!(
        handshake_failure(HandshakeError::ControlMismatch),
        SetupFailure::ChangedSinceInspection
    );
    // A peer whose hello names another build: the answer says so, and dialing cannot fix it.
    assert_eq!(
        handshake_failure(HandshakeError::PeerHelloMismatch),
        SetupFailure::VersionMismatch
    );
    assert!(!is_transient(SetupFailure::VersionMismatch));
}

#[test]
fn a_peer_on_another_protocol_version_is_a_build_mismatch_not_a_retry() {
    assert_eq!(
        map_wire_error(SessionWireError::UnsupportedVersion),
        HandshakeError::PeerHelloMismatch
    );
    assert_eq!(
        map_wire_error(SessionWireError::InvalidFrame),
        HandshakeError::InvalidFrame
    );
}

#[test]
fn configure_roles_require_exactly_one_sender() {
    assert_eq!(
        sync_direction(true, LayoutRole::Waiting),
        Ok(SyncDirection::Send)
    );
    assert_eq!(
        sync_direction(false, LayoutRole::Sender),
        Ok(SyncDirection::Receive)
    );
    assert_eq!(
        sync_direction(true, LayoutRole::Sender),
        Err(SetupFailure::LayoutSyncConflict)
    );
    assert_eq!(
        sync_direction(false, LayoutRole::Waiting),
        Err(SetupFailure::LayoutSyncConflict)
    );
}

#[test]
fn identical_attempt_failures_log_once_then_once_a_minute_with_a_count() {
    let mut log = AttemptLog::new();
    let start = from_secs(1_000);
    let at = |seconds| start + from_secs(seconds);
    assert_eq!(
        log.repeated("refused".into(), at(0)),
        Some("refused".into())
    );
    for second in 1..60 {
        assert_eq!(log.repeated("refused".into(), at(second)), None);
    }
    assert_eq!(
        log.repeated("refused".into(), at(60)),
        Some("refused (repeated 60 times since the last report)".into())
    );
    assert_eq!(log.repeated("refused".into(), at(61)), None);
    assert_eq!(
        log.repeated("timed out".into(), at(62)),
        Some("timed out (the previous failure repeated 1 more times)".into())
    );
}

#[test]
fn each_refused_identity_is_warned_about_once() {
    let mut log = AttemptLog::new();
    let first = CertificateFingerprint::from_certificate_der(b"first".as_slice());
    let second = CertificateFingerprint::from_certificate_der(b"second".as_slice());
    assert!(log.first_refusal(Some(first)));
    assert!(!log.first_refusal(Some(first)));
    assert!(log.first_refusal(None));
    assert!(!log.first_refusal(None));
    assert!(log.first_refusal(Some(second)));
}

#[test]
fn a_certificate_other_than_the_paired_one_is_an_identity_change_on_both_sides() {
    let refused = DeviceIdentity::generate().unwrap().fingerprint();
    for (line, failure) in [
        (
            "share accept failed",
            ConnectionFailure::Transport(ACCESS_DENIED_CODE),
        ),
        (
            "share dial failed",
            ConnectionFailure::PeerClosed(ACCESS_DENIED_CODE),
        ),
        (
            "share dial failed",
            ConnectionFailure::PeerClosed(BAD_CERTIFICATE_CODE),
        ),
    ] {
        assert!(refused_identity(failure));
        let mut log = AttemptLog::new();
        let (outcome, report) =
            connection_failure(&mut log, line.to_string(), Some(failure), Some(refused), 0);
        assert_eq!(outcome, SetupFailure::PeerIdentityChanged);
        assert!(matches!(report, AttemptReport::WarnRefused(Some(named)) if named == refused));
    }
    assert!(!is_transient(SetupFailure::PeerIdentityChanged));
}

#[test]
fn an_unreachable_peer_is_still_a_connection_failure() {
    let timed_out = ConnectionFailure::Other;
    assert!(!refused_identity(timed_out));
    let mut log = AttemptLog::new();
    let (outcome, report) = connection_failure(
        &mut log,
        "share dial failed".to_string(),
        Some(timed_out),
        None,
        0,
    );
    assert_eq!(outcome, SetupFailure::Connection);
    assert!(matches!(report, AttemptReport::Debug(line) if line == "share dial failed"));
    assert!(!refused_identity(ConnectionFailure::Transport(
        BAD_CERTIFICATE_CODE
    )));
}

#[test]
fn a_repeated_identity_change_is_warned_about_once_and_then_collapsed() {
    let refused = fingerprint_of([7; 32]);
    let mut log = AttemptLog::new();
    let (_, report) = identity_changed(&mut log, "refused".to_string(), Some(refused), 0);
    assert!(matches!(report, AttemptReport::WarnRefused(Some(_))));
    let (_, report) = identity_changed(
        &mut log,
        "refused".to_string(),
        Some(refused),
        from_secs(1),
    );
    assert!(matches!(report, AttemptReport::Nothing));
    assert!(matches!(
        note_attempt_failure(&mut log, "timed out".to_string(), from_secs(2)),
        AttemptReport::Debug(_)
    ));
}

#[test]
fn a_dial_goes_on_until_it_is_established_refused_or_cancelled() {
    assert_eq!(
        dial_until_negotiated(Attempt::Established, true),
        DialStep::Return
    );
    assert_eq!(
        dial_until_negotiated(Attempt::TimedOut, false),
        DialStep::DialAgain
    );
    assert_eq!(
        dial_until_negotiated(Attempt::TimedOut, true),
        DialStep::Fail(SetupFailure::Cancelled)
    );
    assert_eq!(
        dial_until_negotiated(Attempt::Failed(SetupFailure::Connection), false),
        DialStep::DialAgain
    );
    assert_eq!(
        dial_until_negotiated(Attempt::Failed(SetupFailure::VersionMismatch), true),
        DialStep::Fail(SetupFailure::VersionMismatch)
    );
    assert_eq!(
        connect_mode(false, SessionPurpose::Share),
        ConnectMode::AcceptOnce
    );
    assert_eq!(
        connect_mode(true, SessionPurpose::Share),
        ConnectMode::DialUntilNegotiated
    );
    assert_eq!(
        connect_mode(true, SessionPurpose::Setup),
        ConnectMode::DialOnce
    );
}

fn adapter(index: u32) -> Adapter {
    Adapter {
        stable_id: "en0".to_string(),
        name: "physical0".to_string(),
        index,
        address: Ipv4Addr::new(192, 168, 50, 10),
        prefix_len: 24,
        physical: true,
        up: true,
        ethernet: true,
        wifi: false,
        attachment: Some(vec![1; 32]),
    }
}

#[test]
fn a_network_is_selected_by_its_exact_name() {
    let adapters = vec![adapter(6), adapter(7)];
    let selection = selected_network(&"en0:7:192.168.50.10".to_string(), &adapters).unwrap();
    assert_eq!(selection.stable_id, "en0");
    assert_eq!(selection.interface_index, 7);
    assert_eq!(
        selection.local,
        SocketAddrV4::new(Ipv4Addr::new(192, 168, 50, 10), PAIRING_PORT)
    );
    for name in ["en0:8:192.168.50.10", "en0", ""] {
        assert_eq!(
            selected_network(&name.to_string(), &adapters).err(),
            Some(SetupFailure::NetworkSelection)
        );
    }
    let twice = vec![adapter(7), adapter(7)];
    assert_eq!(
        selected_network(&"en0:7:192.168.50.10".to_string(), &twice).err(),
        Some(SetupFailure::NetworkSelection)
    );
    let down = vec![Adapter {
        up: false,
        ..adapter(7)
    }];
    assert_eq!(
        selected_network(&"en0:7:192.168.50.10".to_string(), &down).err(),
        Some(SetupFailure::NetworkSelection)
    );
}

struct Records {
    stored: Result<Vec<(String, Vec<u8>)>, StorageError>,
    lists: usize,
}

impl ProtectedPeerStore for Records {
    fn history(&self) -> PeerStoreHistory {
        unreachable!()
    }

    fn list(&mut self) -> Result<Vec<StoredPeer>, StorageError> {
        self.lists += 1;
        match &self.stored {
            Err(error) => Err(*error),
            Ok(stored) => Ok(stored
                .iter()
                .map(|(handle, record)| StoredPeer {
                    handle: handle.clone(),
                    record: SecretBytes::new(record.clone()),
                })
                .collect()),
        }
    }

    fn create_new(&mut self, _: &str, _: &[u8]) -> Result<(), StorageError> {
        Err(StorageError::Unavailable)
    }

    fn delete(&mut self, _: &str) -> Result<(), StorageError> {
        Err(StorageError::Unavailable)
    }
}

fn record(local: &DeviceIdentity, peer: &DeviceIdentity) -> ConfirmedPeerRecord {
    let offer = PairingOffer::new(
        SocketAddrV4::new(Ipv4Addr::new(192, 168, 1, 2), PAIRING_PORT),
        peer.certificate_der(),
    )
    .unwrap();
    ConfirmedPeerRecord::new(local.fingerprint(), offer).unwrap()
}

#[test]
fn only_a_stored_pairing_is_confirmed() {
    let local = DeviceIdentity::generate().unwrap();
    let peer = DeviceIdentity::generate().unwrap();
    let other = DeviceIdentity::generate().unwrap();
    let mut store = Records {
        stored: Ok(vec![
            ("broken".to_string(), vec![0; 20]),
            ("other".to_string(), record(&local, &other).encode()),
            ("peer".to_string(), record(&local, &peer).encode()),
        ]),
        lists: 0,
    };
    let found = confirmed_peer(&mut store, local.fingerprint(), peer.fingerprint());
    assert!(found.ok().unwrap() == record(&local, &peer));
    assert_eq!(store.lists, 1);
    assert_eq!(
        confirmed_peer(&mut store, peer.fingerprint(), local.fingerprint()).err(),
        Some(SetupFailure::PairingRequired)
    );
    store.stored = Err(StorageError::Locked);
    assert_eq!(
        confirmed_peer(&mut store, local.fingerprint(), peer.fingerprint()).err(),
        Some(SetupFailure::Identity)
    );
}

#[test]
fn a_missing_identity_asks_for_pairing() {
    assert_eq!(
        prepare_identity(Ok(None)).err(),
        Some(SetupFailure::PairingRequired)
    );
    assert_eq!(
        prepare_identity(Err(StorageError::Locked)).err(),
        Some(SetupFailure::Identity)
    );
    let identity = DeviceIdentity::generate().unwrap();
    let fingerprint = identity.fingerprint();
    assert!(prepare_identity(Ok(Some(identity))).ok().unwrap().fingerprint() == fingerprint);
}

#[test]
fn one_of_two_prepared_endpoints_dials() {
    let local = DeviceIdentity::generate().unwrap();
    let peer = DeviceIdentity::generate().unwrap();
    let control = ControlPermissions {
        lower_controls_higher: true,
        higher_controls_lower: false,
    };
    let interface = "en0:7:192.168.50.10".to_string();
    let windows = prepare_endpoint(
        &interface,
        control,
        Platform::Windows,
        local.fingerprint(),
        &record(&local, &peer),
    );
    let mac = prepare_endpoint(
        &interface,
        control,
        Platform::MacOs,
        peer.fingerprint(),
        &record(&peer, &local),
    );
    assert!(windows.dials());
    assert!(!mac.dials());
    assert_eq!(windows.control_for(SessionPurpose::Share), control);
    assert_eq!(
        windows.control_for(SessionPurpose::Setup),
        ControlPermissions::both()
    );
    assert_eq!(bind_failure(ErrorKind::AddrInUse), SetupFailure::PortBusy);
    assert_eq!(bind_failure(ErrorKind::AddrNotAvailable), SetupFailure::NetworkRoute);
    assert!(cancel_or_endpoint_revoked(Some(true), false));
    assert!(cancel_or_endpoint_revoked(None, true));
    assert!(!cancel_or_endpoint_revoked(Some(false), false));
}

fn coordinate(value: f64) -> i64 {
    let magnitude = value.abs().to_bits() as i64;
    if value < 0.0 {
        -magnitude
    } else {
        magnitude
    }
}

fn display(id: u64, x: f64, width: f64) -> DisplayDescription {
    DisplayDescription {
        id: DisplayId(id),
        name: "Monitor".to_string(),
        native_width: width as u32,
        native_height: 100,
        logical_origin: Point {
            x: coordinate(x),
            y: 0,
        },
        logical_size: Point {
            x: coordinate(width),
            y: coordinate(100.0),
        },
        logical_end: Point {
            x: coordinate(x + width),
            y: coordinate(100.0),
        },
        scale_factor: coordinate(1.0),
        is_primary: true,
        monitor: None,
    }
}

fn inspected() -> InspectedPeer {
    InspectedPeer {
        local_device: DeviceId([1; 16]),
        peer_device: DeviceId([2; 16]),
        local_fingerprint: fingerprint_of([1; 32]),
        peer_fingerprint: fingerprint_of([2; 32]),
        local_platform: Platform::MacOs,
        peer_platform: Platform::Windows,
        local_displays: DisplayTopology::new(vec![display(1, 0.0, 100.0), display(2, 100.0, 50.0)]),
        peer_displays: DisplayTopology::new(vec![display(3, 0.0, 100.0)]),
        interface_id: "en0:7:192.168.50.10".to_string(),
    }
}

#[test]
fn a_session_matches_its_inspection_while_nothing_changed() {
    assert!(inspected().matches(&inspected()));
    let mut renamed = inspected();
    renamed.peer_displays.displays[0].name = "Other".to_string();
    assert!(inspected().matches(&renamed));
    let mut resized = inspected();
    resized.peer_displays.displays[0].native_width = 101;
    assert!(!inspected().matches(&resized));
    let mut elsewhere = inspected();
    elsewhere.interface_id = "en1".to_string();
    assert!(!inspected().matches(&elsewhere));
}

#[test]
fn the_peer_block_joins_the_layout_where_it_was_moved_to() {
    let moved = vec![Rect {
        left: coordinate(150.0),
        top: 0,
        right: coordinate(250.0),
        bottom: coordinate(100.0),
    }];
    let whole = Overlap {
        start: coordinate(0.0),
        end: coordinate(1.0),
    };
    let laid = EdgeLink {
        from_display: DisplayId(2),
        from_edge: Edge::Right,
        to_display: DisplayId(3),
        to_edge: Edge::Left,
        passage: Passage::Laid {
            from: whole,
            to: whole,
            speed: coordinate(1.0),
        },
    };
    let topology = inspected()
        .outbound_topology(vec![laid], &[], true, &moved, true)
        .unwrap();
    assert_eq!(topology.links.len(), 3);
    assert_eq!(topology.links[0], laid);
    assert_eq!(
        topology.machines,
        vec![
            Machine {
                id: inspected().local_device,
                platform: inspected().local_platform,
            },
            Machine {
                id: inspected().peer_device,
                platform: inspected().peer_platform,
            },
        ]
    );
    let last = topology.displays.last().unwrap();
    assert_eq!(last.id, DisplayId(3));
    assert_eq!(last.machine, inspected().peer_device);
    assert_eq!(last.rect, moved[0]);
    assert!(topology.displays.iter().all(|display| display.in_use));
    for (links, hidden, finite, valid) in [
        (vec![laid], vec![], false, true),
        (vec![laid], vec![DisplayId(9)], true, true),
        (vec![laid], vec![], true, false),
        (vec![laid; 63], vec![], true, true),
        (vec![laid; 65], vec![DisplayId(2)], true, true),
    ] {
        assert_eq!(
            inspected().outbound_topology(links, &hidden, finite, &moved, valid),
            Err(SetupFailure::Layout)
        );
    }
    let hiding = inspected()
        .outbound_topology(vec![], &[DisplayId(2)], true, &moved, true)
        .unwrap();
    assert!(hiding.links.is_empty());
    assert!(hiding
        .displays
        .iter()
        .all(|display| display.in_use == (display.id != DisplayId(2))));
}

fn fingerprint_of(bytes: [u8; 32]) -> CertificateFingerprint {
    let text: String = bytes.iter().map(|byte| format!("{byte:02x}")).collect();
    CertificateFingerprint::parse_full(&text).expect("full fingerprint")
}
