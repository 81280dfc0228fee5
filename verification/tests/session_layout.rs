use monhop_transport::crypto::CertificateFingerprint;
use monhop_transport::protocol::{
    DisplayDescription, DisplayId, DisplayTopology, Point, SessionEpoch, SessionPurpose,
};
use monhop_transport::session_layout::{
    acknowledgement_matches, active_failure, check_active, decode_layout_frame, drain_failure,
    encode_layout_frame, ensure_fresh_local_displays, layout_payload_length, settle_exchange,
    settle_standing, validate_layout_frame, validate_local_proposal, Exchange, ExchangeVerdict,
    LayoutFrame, LayoutKind, LayoutRole, LayoutSync, SyncOutcome, SyncStep, ACK_SEQUENCE,
    MAX_LAYOUT_PAYLOAD_BYTES, PROPOSAL_SEQUENCE, ROLE_SEQUENCE,
};
use monhop_transport::session_setup::SetupFailure;
use std::collections::VecDeque;

const VERSION: u16 = 9;
const CONFIGURE_HEADER_LEN: usize = 64;
const LAYOUT: &[u8] = b"reviewed layout";

fn epoch() -> SessionEpoch {
    SessionEpoch::new(77).unwrap()
}

fn digest(payload: &[u8]) -> [u8; 32] {
    CertificateFingerprint::from_certificate_der(payload).as_bytes().to_owned()
}

fn frame(kind: LayoutKind, role: Option<LayoutRole>, payload: Vec<u8>) -> LayoutFrame {
    LayoutFrame {
        kind,
        role,
        epoch: epoch(),
        sequence: PROPOSAL_SEQUENCE,
        digest: digest(&payload),
        payload,
    }
}

fn split(encoded: Vec<u8>) -> ([u8; CONFIGURE_HEADER_LEN], Vec<u8>) {
    let (header, payload) = encoded.split_at(CONFIGURE_HEADER_LEN);
    (header.try_into().unwrap(), payload.to_vec())
}

#[test]
fn configure_frame_round_trip_binds_version_purpose_epoch_and_digest() {
    let source = frame(
        LayoutKind::Proposal,
        None,
        vec![7; MAX_LAYOUT_PAYLOAD_BYTES],
    );
    let encoded = encode_layout_frame(&source, VERSION).unwrap();
    let (header, payload) = split(encoded);
    let decoded = decode_layout_frame(&header, payload, VERSION).unwrap();
    assert_eq!(decoded.kind, LayoutKind::Proposal);
    assert_eq!(decoded.epoch, source.epoch);
    assert_eq!(decoded.payload, source.payload);
    assert_eq!(decoded.digest, source.digest);
}

#[test]
fn configure_frame_rejects_wrong_version_purpose_digest_and_oversize_payload() {
    let source = frame(LayoutKind::Proposal, None, vec![1]);
    let encoded = encode_layout_frame(&source, VERSION).unwrap();
    let (header, payload) = split(encoded);
    for index in [4, 7, 32] {
        let mut invalid = header;
        invalid[index] ^= 1;
        assert!(matches!(
            decode_layout_frame(&invalid, payload.clone(), VERSION),
            Err(SetupFailure::LayoutSyncIncomplete)
        ));
    }
    assert_eq!(
        validate_local_proposal(Some(&vec![0; MAX_LAYOUT_PAYLOAD_BYTES + 1])),
        Err(SetupFailure::Layout)
    );
}

#[test]
fn a_frame_is_spelled_out_byte_by_byte() {
    let source = frame(LayoutKind::Proposal, None, vec![0xaa, 0xbb]);
    let encoded = encode_layout_frame(&source, 0x0102).unwrap();
    let mut expected = b"LKLC".to_vec();
    expected.extend_from_slice(&[1, 2, 1, 4, 2, 0, 0, 0]);
    expected.extend_from_slice(&77u64.to_be_bytes());
    expected.extend_from_slice(&PROPOSAL_SEQUENCE.to_be_bytes());
    expected.extend_from_slice(&2u32.to_be_bytes());
    expected.extend_from_slice(&digest(&[0xaa, 0xbb]));
    expected.extend_from_slice(&[0xaa, 0xbb]);
    assert_eq!(encoded, expected);
    let (header, _) = split(encoded);
    assert_eq!(layout_payload_length(&header), Ok(2));
}

#[test]
fn each_kind_of_frame_carries_only_what_it_is_for() {
    assert!(validate_layout_frame(&frame(LayoutKind::Proposal, None, vec![1])).is_ok());
    for refused in [
        frame(LayoutKind::Proposal, None, vec![]),
        frame(LayoutKind::Proposal, Some(LayoutRole::Sender), vec![1]),
        frame(LayoutKind::Acknowledgement, None, vec![1]),
        frame(LayoutKind::Role, Some(LayoutRole::Sender), vec![]),
    ] {
        assert_eq!(
            validate_layout_frame(&refused),
            Err(SetupFailure::LayoutSyncIncomplete)
        );
    }
    assert!(encode_layout_frame(&frame(LayoutKind::Proposal, None, vec![]), VERSION).is_err());
    let acknowledgement = frame(LayoutKind::Acknowledgement, None, vec![]);
    assert_eq!(
        acknowledgement_matches(Some(&acknowledgement), digest(&[])),
        Ok(())
    );
    assert_eq!(
        acknowledgement_matches(Some(&acknowledgement), [0; 32]),
        Err(SetupFailure::LayoutSyncIncomplete)
    );
    assert!(acknowledgement_matches(None, digest(&[])).is_err());
    assert_eq!(LayoutKind::from_wire(LayoutKind::Complete.wire()), Ok(LayoutKind::Complete));
    assert_eq!(LayoutRole::from_wire(2), Ok(LayoutRole::Waiting));
    assert!(LayoutRole::from_wire(0).is_err());
}

/// One computer of an exchange over two byte streams.
struct Side {
    sync: LayoutSync,
    saves: usize,
    save: Result<(), SetupFailure>,
    /// Revoked right after it saved.
    cancels_after_save: bool,
    revoked: bool,
    /// Says nothing after this many frames.
    writes_left: usize,
    leftover: bool,
    result: Option<Result<Vec<u8>, SetupFailure>>,
}

impl Side {
    fn new(proposal: Option<&[u8]>) -> Side {
        Side {
            sync: LayoutSync::begin(
                SessionPurpose::Configure,
                ROLE_SEQUENCE,
                epoch(),
                proposal.map(|payload| payload.to_vec()),
            )
            .ok()
            .unwrap(),
            saves: 0,
            save: Ok(()),
            cancels_after_save: false,
            revoked: false,
            writes_left: usize::MAX,
            leftover: false,
            result: None,
        }
    }

    /// Takes steps until there is nothing to read.
    fn run(
        &mut self,
        inbox: &mut VecDeque<Vec<u8>>,
        outbox: &mut VecDeque<Vec<u8>>,
        peer_is_over: bool,
    ) {
        while self.result.is_none() {
            let Some(step) = self.sync.step() else {
                self.result = Some(Ok(self.sync.payload().to_vec()));
                return;
            };
            let outcome = match step {
                SyncStep::Active => match check_active(self.revoked, false) {
                    Ok(()) => SyncOutcome::Done,
                    Err(failure) => SyncOutcome::Failed(failure),
                },
                SyncStep::Fresh => SyncOutcome::Done,
                SyncStep::Write(kind) => {
                    if self.writes_left == 0 {
                        self.result = Some(Err(SetupFailure::LayoutSyncIncomplete));
                        return;
                    }
                    self.writes_left -= 1;
                    let encoded = encode_layout_frame(&self.sync.frame(kind), VERSION);
                    outbox.push_back(encoded.unwrap());
                    SyncOutcome::Done
                }
                SyncStep::Read(_) => match inbox.pop_front() {
                    Some(encoded) => {
                        let (header, payload) = split(encoded);
                        match decode_layout_frame(&header, payload, VERSION) {
                            Ok(frame) => SyncOutcome::Frame(frame),
                            Err(failure) => SyncOutcome::Failed(failure),
                        }
                    }
                    None if peer_is_over => {
                        SyncOutcome::Failed(SetupFailure::LayoutSyncIncomplete)
                    }
                    None => return,
                },
                SyncStep::Persist => {
                    self.saves += 1;
                    if self.cancels_after_save {
                        self.revoked = true;
                    }
                    match self.save {
                        Ok(()) => SyncOutcome::Done,
                        Err(failure) => SyncOutcome::Failed(failure),
                    }
                }
                SyncStep::Drain => {
                    if self.leftover || !inbox.is_empty() {
                        SyncOutcome::Failed(SetupFailure::LayoutSyncIncomplete)
                    } else {
                        SyncOutcome::Done
                    }
                }
            };
            if let Err(failure) = self.sync.advance(outcome) {
                self.result = Some(Err(failure));
            }
        }
    }
}

fn exchange(client: &mut Side, server: &mut Side) {
    let mut to_server = VecDeque::new();
    let mut to_client = VecDeque::new();
    for _ in 0..20 {
        let over = server.result.is_some();
        client.run(&mut to_client, &mut to_server, over);
        let over = client.result.is_some();
        server.run(&mut to_server, &mut to_client, over);
    }
}

#[test]
fn configure_loopback_persists_once_on_both_peers_for_each_sender_direction() {
    for sender_is_client in [true, false] {
        let mut client = Side::new(if sender_is_client { Some(LAYOUT) } else { None });
        let mut server = Side::new(if sender_is_client { None } else { Some(LAYOUT) });
        exchange(&mut client, &mut server);
        assert_eq!(client.result, Some(Ok(LAYOUT.to_vec())));
        assert_eq!(server.result, Some(Ok(LAYOUT.to_vec())));
        assert_eq!(client.saves, 1);
        assert_eq!(server.saves, 1);
    }
}

#[test]
fn configure_loopback_missing_acknowledgement_does_not_persist_sender() {
    let mut client = Side::new(Some(LAYOUT));
    let mut server = Side::new(None);
    server.writes_left = 1;
    exchange(&mut client, &mut server);
    assert_eq!(
        client.result,
        Some(Err(SetupFailure::LayoutSyncIncomplete))
    );
    assert_eq!(client.saves, 0);
}

#[test]
fn configure_loopback_receiver_save_failure_never_acknowledges() {
    let mut client = Side::new(Some(LAYOUT));
    let mut server = Side::new(None);
    server.save = Err(SetupFailure::Layout);
    exchange(&mut client, &mut server);
    assert_eq!(
        client.result,
        Some(Err(SetupFailure::LayoutSyncIncomplete))
    );
    assert_eq!(server.result, Some(Err(SetupFailure::Layout)));
    assert_eq!(client.saves, 0);
    assert_eq!(server.saves, 1);
}

#[test]
fn configure_loopback_sender_save_failure_closes_without_completion() {
    let mut client = Side::new(Some(LAYOUT));
    let mut server = Side::new(None);
    client.save = Err(SetupFailure::Layout);
    exchange(&mut client, &mut server);
    assert_eq!(
        client.result,
        Some(Err(SetupFailure::LayoutSyncIncomplete))
    );
    assert_eq!(
        server.result,
        Some(Err(SetupFailure::LayoutSyncIncomplete))
    );
    assert_eq!(client.saves, 1);
    assert_eq!(server.saves, 1);
}

#[test]
fn configure_loopback_rejects_role_conflict_before_persistence() {
    let mut client = Side::new(Some(LAYOUT));
    let mut server = Side::new(Some(LAYOUT));
    exchange(&mut client, &mut server);
    assert_eq!(client.result, Some(Err(SetupFailure::LayoutSyncConflict)));
    assert_eq!(server.result, Some(Err(SetupFailure::LayoutSyncConflict)));
    assert_eq!(client.saves, 0);
    assert_eq!(server.saves, 0);
}

#[test]
fn configure_loopback_rejects_trailing_bytes_after_sender_persists() {
    let mut client = Side::new(Some(LAYOUT));
    let mut server = Side::new(None);
    client.leftover = true;
    exchange(&mut client, &mut server);
    assert_eq!(
        client.result,
        Some(Err(SetupFailure::LayoutSyncIncomplete))
    );
    assert_eq!(client.saves, 1);
}

#[test]
fn configure_loopback_cancellation_after_receiver_save_stops_completion() {
    let mut client = Side::new(Some(LAYOUT));
    let mut server = Side::new(None);
    server.cancels_after_save = true;
    exchange(&mut client, &mut server);
    assert_eq!(
        client.result,
        Some(Err(SetupFailure::LayoutSyncIncomplete))
    );
    assert_eq!(server.result, Some(Err(SetupFailure::Cancelled)));
    assert_eq!(client.saves, 0);
    assert_eq!(server.saves, 1);
}

#[test]
fn an_exchange_begins_only_where_it_was_negotiated() {
    assert_eq!(
        LayoutSync::begin(SessionPurpose::Share, ROLE_SEQUENCE, epoch(), None).err(),
        Some(SetupFailure::Handshake)
    );
    assert_eq!(
        LayoutSync::begin(SessionPurpose::Configure, ACK_SEQUENCE, epoch(), None).err(),
        Some(SetupFailure::LayoutSyncIncomplete)
    );
    let mut sync = LayoutSync::begin(SessionPurpose::Configure, ROLE_SEQUENCE, epoch(), None)
        .ok()
        .unwrap();
    sync.advance(SyncOutcome::Done).unwrap();
    sync.advance(SyncOutcome::Done).unwrap();
    let mut stale = sync.frame(LayoutKind::Role);
    stale.epoch = SessionEpoch::new(78).unwrap();
    assert_eq!(
        sync.advance(SyncOutcome::Frame(stale)),
        Err(SetupFailure::LayoutSyncIncomplete)
    );
    assert_eq!(
        sync.advance(SyncOutcome::Done),
        Err(SetupFailure::LayoutSyncIncomplete)
    );
}

#[test]
fn a_passed_deadline_is_never_a_success() {
    assert_eq!(
        settle_exchange(Exchange::Completed, false, false),
        ExchangeVerdict::Proceed
    );
    assert_eq!(
        settle_exchange(Exchange::Completed, false, true),
        ExchangeVerdict::AbortAndClose(SetupFailure::LayoutSyncIncomplete)
    );
    assert_eq!(
        settle_exchange(Exchange::Failed(SetupFailure::Layout), true, false),
        ExchangeVerdict::AbortAndClose(SetupFailure::Cancelled)
    );
    assert_eq!(
        settle_exchange(Exchange::TimedOut, false, false),
        ExchangeVerdict::AbortAndClose(SetupFailure::LayoutSyncIncomplete)
    );
    assert_eq!(settle_standing(false, false), ExchangeVerdict::Proceed);
    assert_eq!(
        settle_standing(true, false),
        ExchangeVerdict::Fail(SetupFailure::Cancelled)
    );
    assert_eq!(
        settle_standing(true, true),
        ExchangeVerdict::Abort(SetupFailure::LayoutSyncIncomplete)
    );
    assert_eq!(drain_failure(true, false), SetupFailure::Cancelled);
    assert_eq!(
        active_failure(SetupFailure::Layout, false, false),
        SetupFailure::Layout
    );
}

#[test]
fn stale_displays_are_told_from_unreadable_ones() {
    let display = |width| DisplayDescription {
        id: DisplayId(1),
        name: "fixture".to_string(),
        native_width: width,
        native_height: 100,
        logical_origin: Point { x: 0, y: 0 },
        logical_size: Point { x: 1, y: 1 },
        logical_end: Point { x: 1, y: 1 },
        scale_factor: 1,
        is_primary: true,
        monitor: None,
    };
    let inspected = DisplayTopology::new(vec![display(100)]);
    let changed = DisplayTopology::new(vec![display(200)]);
    assert_eq!(
        ensure_fresh_local_displays(Some(&inspected), &inspected),
        Ok(())
    );
    assert_eq!(
        ensure_fresh_local_displays(Some(&changed), &inspected),
        Err(SetupFailure::ChangedSinceInspection)
    );
    assert_eq!(
        ensure_fresh_local_displays(None, &inspected),
        Err(SetupFailure::Displays)
    );
}
