use monhop_transport::crypto::{CertificateFingerprint, DeviceIdentity, VerifiedPeer};
use monhop_transport::protocol::{
    Capabilities, ControlPermissions, DeliveryClass, DisplayDescription, DisplayId,
    DisplayTopology, Frame, FrameScope, Message, Platform, Point, SessionEpoch, SessionPurpose,
};
use monhop_transport::session_handshake::{
    acknowledgement_deadline, begin_negotiation, derive_epoch, device_id_from_fingerprint, ending,
    observed_peer_fingerprint, Answer, ContinuationError, ControlContinuation, Ending,
    HandshakeConfig, HandshakeError, InputEpochContinuation, NegotiatedSession, ProtocolVerdicts,
    SessionWireError,
};
use monhop_transport::time::from_millis;

const VERSION: u16 = 9;
const EXPORTED: [u8; 8] = [0, 0, 0, 0, 0, 0, 1, 2];
const ADMITTED: ProtocolVerdicts = ProtocolVerdicts {
    local_capabilities: true,
    expected_peer_capabilities: true,
    local_topology: true,
    control: true,
};

fn topology(id: u64) -> DisplayTopology {
    let hundred = 100.0f64.to_bits() as i64;
    DisplayTopology::new(vec![DisplayDescription {
        id: DisplayId(id),
        name: "fixture".to_string(),
        native_width: 100,
        native_height: 100,
        logical_origin: Point { x: 0, y: 0 },
        logical_size: Point {
            x: hundred,
            y: hundred,
        },
        logical_end: Point {
            x: hundred,
            y: hundred,
        },
        scale_factor: 1.0f64.to_bits() as i64,
        is_primary: true,
        monitor: None,
    }])
}

fn pin(identity: &DeviceIdentity) -> VerifiedPeer {
    VerifiedPeer::from_certificate_der(
        identity.certificate_der(),
        &identity.fingerprint().full_hex(),
    )
    .ok()
    .expect("generated identity has a full matching pin")
}

fn capabilities() -> Capabilities {
    Capabilities(3)
}

fn control(both: bool) -> ControlPermissions {
    if both {
        ControlPermissions::both()
    } else {
        ControlPermissions {
            lower_controls_higher: true,
            higher_controls_lower: false,
        }
    }
}

/// One side's frames, as the other side is to read them.
fn written(config: &HandshakeConfig<'_>, peer: &DeviceIdentity) -> (Vec<Frame>, Answer) {
    let chain = vec![peer.certificate_der().to_vec()];
    let mut proposal = begin_negotiation(config, Some(&chain), Some(EXPORTED))
        .ok()
        .expect("a valid configuration begins");
    let mut frames = Vec::new();
    while let Some(frame) = proposal.next_frame(config) {
        frames.push(frame);
        proposal.wrote(Ok(())).unwrap();
    }
    (
        frames,
        proposal.accepted(true).ok().expect("the stream is open"),
    )
}

fn concluded(
    mut answer: Answer,
    config: &HandshakeConfig<'_>,
    frames: Vec<Frame>,
) -> Result<NegotiatedSession, HandshakeError> {
    for frame in frames {
        assert!(!answer.is_complete());
        answer.read(Ok(frame))?;
    }
    assert!(answer.is_complete());
    answer.conclude(config, true)
}

/// Both sides announce a control map and purpose independently, the dialing computer with its own
/// features.
fn negotiate_both_with(
    client: (bool, SessionPurpose),
    server: (bool, SessionPurpose),
    client_features: Capabilities,
) -> (
    Result<NegotiatedSession, HandshakeError>,
    Result<NegotiatedSession, HandshakeError>,
) {
    let client_identity = DeviceIdentity::generate().expect("client identity");
    let server_identity = DeviceIdentity::generate().expect("server identity");
    let server_pin = pin(&server_identity);
    let client_pin = pin(&client_identity);
    let client_topology = topology(1);
    let server_topology = topology(2);
    let client_config = HandshakeConfig::new(
        &client_identity,
        &server_pin,
        Platform::Windows,
        Platform::MacOs,
        client_features,
        client_features,
        &client_topology,
        control(client.0),
        client.1,
        VERSION,
        ADMITTED,
    )
    .ok()
    .expect("client handshake configuration");
    let server_config = HandshakeConfig::new(
        &server_identity,
        &client_pin,
        Platform::MacOs,
        Platform::Windows,
        capabilities(),
        capabilities(),
        &server_topology,
        control(server.0),
        server.1,
        VERSION,
        ADMITTED,
    )
    .ok()
    .expect("server handshake configuration");
    let (client_frames, client_answer) = written(&client_config, &server_identity);
    let (server_frames, server_answer) = written(&server_config, &client_identity);
    (
        concluded(client_answer, &client_config, server_frames),
        concluded(server_answer, &server_config, client_frames),
    )
}

fn negotiate_both(
    client: (bool, SessionPurpose),
    server: (bool, SessionPurpose),
) -> (
    Result<NegotiatedSession, HandshakeError>,
    Result<NegotiatedSession, HandshakeError>,
) {
    negotiate_both_with(client, server, capabilities())
}

#[test]
fn one_computer_arranging_and_one_sharing_both_name_the_purpose_disagreement() {
    let (client, server) =
        negotiate_both((true, SessionPurpose::Setup), (true, SessionPurpose::Share));
    assert_eq!(client.err(), Some(HandshakeError::PurposeMismatch));
    assert_eq!(server.err(), Some(HandshakeError::PurposeMismatch));
}

/// Purpose wins when both purpose and saved control disagree.
#[test]
fn purpose_disagreement_precedes_control_disagreement() {
    let (client, server) = negotiate_both(
        (true, SessionPurpose::Setup),
        (false, SessionPurpose::Share),
    );
    assert_eq!(client.err(), Some(HandshakeError::PurposeMismatch));
    assert_eq!(server.err(), Some(HandshakeError::PurposeMismatch));
}

#[test]
fn control_mismatch_is_symmetric() {
    let (client, server) = negotiate_both(
        (true, SessionPurpose::Share),
        (false, SessionPurpose::Share),
    );
    assert_eq!(client.err(), Some(HandshakeError::ControlMismatch));
    assert_eq!(server.err(), Some(HandshakeError::ControlMismatch));
}

/// Two builds that do not announce the same features: each rejects the other's hello.
#[test]
fn two_builds_that_announce_different_features_both_name_the_disagreement() {
    let newer = Capabilities(7);
    let (client, server) = negotiate_both_with(
        (true, SessionPurpose::Share),
        (true, SessionPurpose::Share),
        newer,
    );
    assert_eq!(client.err(), Some(HandshakeError::PeerHelloMismatch));
    assert_eq!(server.err(), Some(HandshakeError::PeerHelloMismatch));
}

#[test]
fn agreeing_computers_still_negotiate() {
    let (client, server) =
        negotiate_both((true, SessionPurpose::Share), (true, SessionPurpose::Share));
    let client = client.ok().unwrap();
    let server = server.ok().unwrap();
    assert_eq!(client.initial_epoch, SessionEpoch::new(0x102).unwrap());
    assert_eq!(client.purpose(), SessionPurpose::Share);
    assert_eq!(client.peer.device_id, server.local.device_id);
    assert_eq!(client.peer.topology, topology(2));
    assert_eq!(client.outbound_scope(), server.inbound_scope());
    assert_eq!(client.inbound_scope(), server.outbound_scope());
    assert_eq!(client.control.next_sequence(), 3);
}

#[test]
fn a_device_is_named_by_the_first_half_of_its_fingerprint() {
    let mut fingerprint = [1u8; 32];
    fingerprint[16] = 9;
    assert_eq!(
        device_id_from_fingerprint(fingerprint_of(fingerprint)).0,
        [1; 16]
    );
}

#[test]
fn a_configuration_needs_two_computers_and_admitted_values() {
    let identity = DeviceIdentity::generate().unwrap();
    let other = DeviceIdentity::generate().unwrap();
    let own_pin = pin(&identity);
    let other_pin = pin(&other);
    let displays = topology(1);
    let config = |peer, purpose, both, verdicts| {
        HandshakeConfig::new(
            &identity,
            peer,
            Platform::Windows,
            Platform::MacOs,
            capabilities(),
            capabilities(),
            &displays,
            control(both),
            purpose,
            VERSION,
            verdicts,
        )
        .err()
    };
    assert_eq!(
        config(&other_pin, SessionPurpose::Share, false, ADMITTED),
        None
    );
    for refused in [
        config(&own_pin, SessionPurpose::Share, true, ADMITTED),
        config(&other_pin, SessionPurpose::Setup, false, ADMITTED),
        config(
            &other_pin,
            SessionPurpose::Share,
            true,
            ProtocolVerdicts {
                local_topology: false,
                ..ADMITTED
            },
        ),
    ] {
        assert_eq!(refused, Some(HandshakeError::InvalidConfiguration));
    }
}

#[test]
fn a_negotiation_begins_only_with_the_pinned_peer_and_an_epoch() {
    let identity = DeviceIdentity::generate().unwrap();
    let other = DeviceIdentity::generate().unwrap();
    let other_pin = pin(&other);
    let displays = topology(1);
    let config = HandshakeConfig::new(
        &identity,
        &other_pin,
        Platform::Windows,
        Platform::MacOs,
        capabilities(),
        capabilities(),
        &displays,
        control(true),
        SessionPurpose::Share,
        VERSION,
        ADMITTED,
    )
    .ok()
    .unwrap();
    assert!(config.local_device_id() == device_id_from_fingerprint(identity.fingerprint()));
    let chain = vec![other.certificate_der().to_vec()];
    assert_eq!(
        begin_negotiation(&config, None, Some(EXPORTED)).err(),
        Some(HandshakeError::PeerIdentityUnavailable)
    );
    let doubled = vec![chain[0].clone(), chain[0].clone()];
    assert_eq!(
        observed_peer_fingerprint(Some(&doubled)).err(),
        Some(HandshakeError::PeerIdentityUnavailable)
    );
    assert_eq!(
        begin_negotiation(&config, Some(&chain), None).err(),
        Some(HandshakeError::EpochDerivation)
    );
    let stranger = DeviceIdentity::generate().unwrap();
    let (frames, answer) = written(&config, &stranger);
    assert_eq!(
        concluded(answer, &config, frames).err(),
        Some(HandshakeError::PeerCertificateMismatch)
    );
    let mut begun = begin_negotiation(&config, Some(&chain), Some(EXPORTED))
        .ok()
        .unwrap();
    assert_eq!(
        begun.wrote(Err(SessionWireError::Closed)),
        Err(HandshakeError::Stream)
    );
    assert_eq!(begun.accepted(false).err(), Some(HandshakeError::Stream));
}

#[test]
fn frames_out_of_place_are_refused() {
    let client_identity = DeviceIdentity::generate().unwrap();
    let server_identity = DeviceIdentity::generate().unwrap();
    let server_pin = pin(&server_identity);
    let client_pin = pin(&client_identity);
    let displays = topology(1);
    let build = |local, peer, platform, expected| {
        HandshakeConfig::new(
            local,
            peer,
            platform,
            expected,
            capabilities(),
            capabilities(),
            &displays,
            control(true),
            SessionPurpose::Share,
            VERSION,
            ADMITTED,
        )
        .ok()
        .unwrap()
    };
    let client = build(
        &client_identity,
        &server_pin,
        Platform::Windows,
        Platform::MacOs,
    );
    let server = build(
        &server_identity,
        &client_pin,
        Platform::MacOs,
        Platform::Windows,
    );
    let outcome = |change: &dyn Fn(&mut Vec<Frame>)| {
        let (mut frames, _) = written(&server, &client_identity);
        let (_, answer) = written(&client, &server_identity);
        change(&mut frames);
        concluded(answer, &client, frames).err()
    };
    assert_eq!(outcome(&|_| {}), None);
    assert_eq!(
        outcome(&|frames| frames[1].sequence = 7),
        Some(HandshakeError::InvalidFrame)
    );
    assert_eq!(
        outcome(&|frames| frames[2].scope = FrameScope::LowerControlsHigher),
        Some(HandshakeError::InvalidFrame)
    );
    assert_eq!(
        outcome(&|frames| frames[0].delivery = DeliveryClass::MotionDatagram),
        Some(HandshakeError::UnexpectedFrame)
    );
    assert_eq!(
        outcome(&|frames| frames[1].message = Message::SessionReady),
        Some(HandshakeError::UnexpectedFrame)
    );
}

#[test]
fn epochs_come_from_the_connection_and_leave_room_to_advance() {
    assert_eq!(
        derive_epoch(Some(EXPORTED)),
        Ok(SessionEpoch::new(0x102).unwrap())
    );
    assert_eq!(
        derive_epoch(Some([0; 8])),
        Err(HandshakeError::EpochDerivation)
    );
    assert_eq!(
        derive_epoch(Some([0xff; 8])),
        Err(HandshakeError::EpochDerivation)
    );
    let mut epochs = InputEpochContinuation {
        active_epoch: SessionEpoch::new(0x102).unwrap(),
    };
    assert_eq!(
        epochs.begin_activation(),
        Ok(SessionEpoch::new(0x103).unwrap())
    );
    assert_eq!(epochs.active_epoch().get(), 0x103);
    let mut last = InputEpochContinuation {
        active_epoch: SessionEpoch::new(u64::MAX).unwrap(),
    };
    assert_eq!(
        last.begin_activation(),
        Err(ContinuationError::EpochExhausted)
    );
}

#[test]
fn control_goes_on_with_heartbeats_alone() {
    let epoch = SessionEpoch::new(5).unwrap();
    let mut control = ControlContinuation {
        epoch,
        next_sequence: 3,
    };
    let frame = control.next_heartbeat(Message::Ping(1)).unwrap();
    assert_eq!((frame.epoch, frame.sequence), (epoch, 3));
    assert_eq!(
        control.next_heartbeat(Message::SessionReady),
        Err(ContinuationError::NotHeartbeat)
    );
    assert_eq!(control.next_sequence(), 4);
    control.next_sequence = u64::MAX;
    assert_eq!(
        control.next_heartbeat(Message::Pong(1)),
        Err(ContinuationError::SequenceExhausted)
    );
    assert_eq!(
        ContinuationError::SequenceExhausted.message(),
        "reliable sequence is exhausted"
    );
}

#[test]
fn only_a_disagreement_waits_for_its_acknowledgement() {
    assert_eq!(
        ending(HandshakeError::ControlMismatch),
        Ending::AcknowledgeThenClose(HandshakeError::ControlMismatch)
    );
    assert_eq!(
        ending(HandshakeError::InvalidFrame),
        Ending::Close(HandshakeError::InvalidFrame)
    );
    assert_eq!(
        acknowledgement_deadline(from_millis(100), from_millis(500)),
        from_millis(250)
    );
    assert_eq!(
        acknowledgement_deadline(from_millis(400), from_millis(500)),
        from_millis(500)
    );
    assert_eq!(
        HandshakeError::PeerHelloMismatch.message(),
        "session peer hello does not match the negotiated policy"
    );
}

fn fingerprint_of(bytes: [u8; 32]) -> CertificateFingerprint {
    let text: String = bytes.iter().map(|byte| format!("{byte:02x}")).collect();
    CertificateFingerprint::parse_full(&text).expect("full fingerprint")
}
