use monhop_transport::crypto::CertificateFingerprint;
use monhop_transport::protocol::{
    DeviceId, DisplayDescription, DisplayId, DisplayTopology, Platform, Point, SessionEpoch,
    SessionPurpose,
};
use monhop_transport::session_layout::MAX_LAYOUT_PAYLOAD_BYTES;
use monhop_transport::session_link::{
    attempt_reason, decode_link_frame, encode_link_frame, guard_write, local_proposal_wins,
    may_wait, DecodedTopology, Established, IdleStep, Link, LinkAction, LinkCommand,
    LinkDisconnect, LinkExit, LinkFrame, LinkKind, LinkNotice, LinkReader, LinkRejectReason,
    LinkRun, ReadOutcome, ReaderStep, RunStep, LINK_ACK_DEADLINE, LINK_HEARTBEAT_INTERVAL,
    LINK_SILENCE_DEADLINE, LINK_START_SEQUENCE, MAX_PENDING_FRAMES,
};
use monhop_transport::session_setup::{InspectedPeer, SetupFailure};
use monhop_transport::time::{from_millis, Duration};
use std::cell::Cell;
use std::collections::VecDeque;
use std::rc::Rc;

const VERSION: u16 = 9;
const LINK_HEADER_LEN: usize = 64;

fn epoch() -> SessionEpoch {
    SessionEpoch::new(9).unwrap()
}

fn topology(id: u64, width: u32) -> DisplayTopology {
    DisplayTopology::new(vec![DisplayDescription {
        id: DisplayId(id),
        name: "fixture".to_string(),
        native_width: width,
        native_height: 100,
        logical_origin: Point { x: 0, y: 0 },
        logical_size: Point { x: 1, y: 1 },
        logical_end: Point { x: 1, y: 1 },
        scale_factor: 1,
        is_primary: true,
        monitor: None,
    }])
}

#[derive(Clone, Debug, PartialEq)]
enum Event {
    Notice(LinkNotice),
    Completed { bytes: Vec<u8>, sending: bool },
    Exit(LinkExit),
}

/// One computer of a link: its state, what it stores, what it tells its owner and what it wrote.
struct Side {
    link: Link,
    reader: LinkReader,
    outbox: VecDeque<u8>,
    events: Vec<Event>,
    displays: DisplayTopology,
    stages: usize,
    commits: usize,
    discards: usize,
    stage_result: Result<(), LinkRejectReason>,
    commit_result: Result<(), LinkRejectReason>,
    commit_position: Option<usize>,
    order: Rc<Cell<usize>>,
    saved: Vec<u8>,
    /// Topologies on their way, in place of an encoding.
    published: VecDeque<DisplayTopology>,
    now: Duration,
    exit: Option<LinkExit>,
}

impl Side {
    fn new(device: u8, peer: u8, order: &Rc<Cell<usize>>, arranging: bool) -> Side {
        let inspection = InspectedPeer {
            local_device: DeviceId([device; 16]),
            peer_device: DeviceId([peer; 16]),
            local_fingerprint: fingerprint_of([device; 32]),
            peer_fingerprint: fingerprint_of([peer; 32]),
            local_platform: Platform::Windows,
            peer_platform: Platform::MacOs,
            local_displays: topology(u64::from(device), 100),
            peer_displays: topology(u64::from(peer), 100),
            interface_id: "fixture".to_string(),
        };
        let mut side = Side {
            link: Link::new(epoch(), inspection, arranging, 0),
            reader: LinkReader::new(),
            outbox: VecDeque::new(),
            events: Vec::new(),
            displays: topology(u64::from(device), 100),
            stages: 0,
            commits: 0,
            discards: 0,
            stage_result: Ok(()),
            commit_result: Ok(()),
            commit_position: None,
            order: Rc::clone(order),
            saved: Vec::new(),
            published: VecDeque::new(),
            now: 0,
            exit: None,
        };
        let opening = side.link.publish_arranging();
        side.write(opening);
        side
    }

    fn write(&mut self, frame: LinkFrame) {
        match self.link.write(frame, VERSION) {
            Ok(bytes) => self.outbox.extend(bytes),
            Err(exit) => self.exit = Some(exit),
        }
    }

    fn perform(&mut self, actions: Vec<LinkAction>, topologies: &mut VecDeque<DisplayTopology>) {
        for action in actions {
            match action {
                LinkAction::Write(frame) => self.write(frame),
                LinkAction::Notify(notice) => self.events.push(Event::Notice(notice)),
                LinkAction::Completed { bytes, sending } => {
                    self.events.push(Event::Completed { bytes, sending })
                }
                LinkAction::Stage(bytes) => {
                    self.stages += 1;
                    if self.stage_result.is_ok() {
                        self.saved = bytes;
                    }
                    let next = self.link.persisted(self.stage_result);
                    self.perform(next, topologies);
                }
                LinkAction::Commit(_) => {
                    self.commits += 1;
                    self.commit_position = Some(self.order.get());
                    self.order.set(self.order.get() + 1);
                    let next = self.link.persisted(self.commit_result);
                    self.perform(next, topologies);
                }
                LinkAction::Discard => self.discards += 1,
                LinkAction::StartDeadline => self.link.start_deadline(self.now),
                LinkAction::DecodeTopology(_) => {
                    let next = self.link.accept_peer_topology(Some(DecodedTopology {
                        epoch: epoch(),
                        sequence: 0,
                        topology: topologies.pop_front(),
                    }));
                    self.perform(next, topologies);
                }
                LinkAction::Exit(exit) => {
                    self.exit = Some(exit);
                    self.events.push(Event::Exit(exit));
                }
            }
        }
    }

    fn act(&mut self, actions: Vec<LinkAction>) {
        self.perform(actions, &mut VecDeque::new());
    }

    fn propose(&mut self, bytes: &[u8]) {
        let actions = self.link.propose(bytes.to_vec());
        self.act(actions);
    }

    fn arranging(&mut self, value: bool) {
        let actions = self.link.arrange(value);
        self.act(actions);
    }

    /// Reads everything the peer wrote, a few bytes at a time.
    fn read_from(&mut self, peer: &mut Side) {
        while self.exit.is_none() {
            match self.reader.next_frame(VERSION) {
                ReaderStep::Frame(frame) => {
                    self.link.heard(self.now);
                    let actions = self.link.handle_frame(frame);
                    self.perform(actions, &mut peer.published);
                }
                ReaderStep::Read(room) => {
                    if peer.outbox.is_empty() {
                        return;
                    }
                    let count = room.min(7).min(peer.outbox.len());
                    let bytes: Vec<u8> = peer.outbox.drain(..count).collect();
                    self.reader.fed(ReadOutcome::Bytes(bytes));
                }
                ReaderStep::Fail(reason) => {
                    let actions = self.link.end(LinkExit::Disconnected(reason));
                    self.act(actions);
                }
            }
        }
    }

    fn counts(&self) -> (usize, usize, usize) {
        (self.stages, self.commits, self.discards)
    }

    /// What was settled, oldest first.
    fn settled(&self) -> Vec<Event> {
        self.events
            .iter()
            .filter(|event| {
                matches!(
                    event,
                    Event::Completed { .. } | Event::Notice(LinkNotice::SyncRejected { .. })
                )
            })
            .cloned()
            .collect()
    }

    fn arranging_reports(&self) -> Vec<bool> {
        self.events
            .iter()
            .filter_map(|event| match event {
                Event::Notice(LinkNotice::PeerArranging { arranging }) => Some(*arranging),
                _ => None,
            })
            .collect()
    }
}

fn rejected(reason: LinkRejectReason, sending: bool) -> Event {
    Event::Notice(LinkNotice::SyncRejected { reason, sending })
}

fn completed(bytes: &[u8], sending: bool) -> Event {
    Event::Completed {
        bytes: bytes.to_vec(),
        sending,
    }
}

struct Pair {
    dialer: Side,
    listener: Side,
}

impl Pair {
    fn connected() -> Pair {
        let order = Rc::new(Cell::new(0));
        let mut pair = Pair {
            dialer: Side::new(1, 2, &order, false),
            listener: Side::new(2, 1, &order, false),
        };
        pair.settle();
        pair
    }

    fn settle(&mut self) {
        for _ in 0..20 {
            self.dialer.read_from(&mut self.listener);
            self.listener.read_from(&mut self.dialer);
        }
    }

    /// Both sides are told to close, and each ends without a failure.
    fn close(mut self) {
        if self.dialer.exit.is_none() {
            let bye = self.dialer.link.farewell();
            self.dialer.write(bye);
            let actions = self.dialer.link.end(LinkExit::Closed);
            self.dialer.act(actions);
            assert_eq!(self.dialer.exit, Some(LinkExit::Closed));
        }
        self.settle();
        if self.listener.exit.is_none() {
            let actions = self.listener.link.end(LinkExit::Closed);
            self.listener.act(actions);
        }
        for side in [&self.dialer, &self.listener] {
            let mut run = LinkRun::new();
            match run.ended(side.exit.expect("ended link")) {
                RunStep::Close => {}
                RunStep::Retry(_) => {
                    assert_eq!(run.idle_command(Some(LinkCommand::Close)), IdleStep::Close);
                }
                step => panic!("the link failed: {:?}", step),
            }
        }
    }
}

#[test]
fn link_frames_bind_version_purpose_kind_epoch_and_digest() {
    let source =
        LinkFrame::with_payload(LinkKind::Proposal, epoch(), vec![7; MAX_LAYOUT_PAYLOAD_BYTES]);
    let encoded = encode_link_frame(&source, VERSION).unwrap();
    let (header, payload) = encoded.split_at(LINK_HEADER_LEN);
    let header: [u8; LINK_HEADER_LEN] = header.try_into().unwrap();
    let decoded = decode_link_frame(&header, payload.to_vec(), VERSION).unwrap();
    assert_eq!(decoded.kind, LinkKind::Proposal);
    assert_eq!(decoded.epoch, epoch());
    assert_eq!(decoded.digest, source.digest);
    assert_eq!(decoded.payload, source.payload);

    // Version, purpose and digest bytes are all binding.
    for index in [4, 7, 32] {
        let mut invalid = header;
        invalid[index] ^= 1;
        assert_eq!(
            decode_link_frame(&invalid, payload.to_vec(), VERSION).err(),
            Some(LinkDisconnect::Transport),
            "header byte {} must be validated",
            index
        );
    }
    for kind in [0_u8, 10] {
        let mut invalid = header;
        invalid[8] = kind;
        assert_eq!(
            decode_link_frame(&invalid, payload.to_vec(), VERSION).err(),
            Some(LinkDisconnect::Transport),
            "unknown kind {} must be refused",
            kind
        );
    }
    let mut oversize = header;
    oversize[28..32].copy_from_slice(
        &u32::try_from(MAX_LAYOUT_PAYLOAD_BYTES + 1)
            .unwrap()
            .to_be_bytes(),
    );
    assert_eq!(
        decode_link_frame(&oversize, payload.to_vec(), VERSION).err(),
        Some(LinkDisconnect::Transport)
    );
    let rejection = LinkFrame::rejection(epoch(), [3; 32], LinkRejectReason::Busy);
    let encoded = encode_link_frame(&rejection, VERSION).unwrap();
    let header: [u8; LINK_HEADER_LEN] = encoded[..LINK_HEADER_LEN].try_into().unwrap();
    assert_eq!(
        decode_link_frame(&header, Vec::new(), VERSION).unwrap().reason,
        Some(LinkRejectReason::Busy)
    );
}

#[test]
fn simultaneous_proposals_pick_the_same_winner_on_both_sides() {
    let lower = DeviceId([1; 16]);
    let higher = DeviceId([2; 16]);
    assert!(local_proposal_wins(lower, higher));
    assert!(!local_proposal_wins(higher, lower));
    assert!(!local_proposal_wins(lower, lower));
}

fn established() -> Established {
    Established::Session {
        purpose: SessionPurpose::Setup,
        next_sequence: LINK_START_SEQUENCE,
    }
}

#[test]
fn link_connects_when_the_dialer_starts_first() {
    let mut run = LinkRun::new();
    assert_eq!(run.begin(false), Ok(1));
    assert_eq!(
        run.established(Established::Failed(SetupFailure::Connection)),
        RunStep::Retry(LinkDisconnect::Attempt)
    );
    assert_eq!(run.begin(false), Ok(2));
    assert_eq!(run.established(established()), RunStep::Serve);
    assert_eq!(run.attempt, 0);
    assert_eq!(run.ended(LinkExit::Closed), RunStep::Close);
}

#[test]
fn link_connects_when_the_listener_starts_first_and_close_reports_closed() {
    let mut pair = Pair::connected();
    let bye = pair.dialer.link.farewell();
    pair.dialer.write(bye);
    let actions = pair.dialer.link.end(LinkExit::Closed);
    pair.dialer.act(actions);
    pair.settle();
    assert_eq!(pair.dialer.exit, Some(LinkExit::Closed));
    assert_eq!(
        pair.listener.exit,
        Some(LinkExit::Disconnected(LinkDisconnect::PeerClosed))
    );
    let mut run = LinkRun::new();
    assert_eq!(run.ended(LinkExit::Closed), RunStep::Close);
    assert_eq!(run.idle_command(Some(LinkCommand::Close)), IdleStep::Close);
    pair.close();
}

fn proposal_from(dialer_proposes: bool) {
    let mut pair = Pair::connected();
    if dialer_proposes {
        pair.dialer.propose(b"reviewed layout");
    } else {
        pair.listener.propose(b"reviewed layout");
    }
    pair.settle();
    let (sender, receiver) = if dialer_proposes {
        (&pair.dialer, &pair.listener)
    } else {
        (&pair.listener, &pair.dialer)
    };
    assert_eq!(sender.settled(), [completed(b"reviewed layout", true)]);
    assert_eq!(receiver.settled(), [completed(b"reviewed layout", false)]);
    assert_eq!(sender.counts(), (1, 1, 0));
    assert_eq!(receiver.counts(), (1, 1, 0));
    assert_eq!(receiver.saved, b"reviewed layout".to_vec());
    pair.close();
}

#[test]
fn link_applies_a_proposal_from_the_dialer() {
    proposal_from(true);
}

#[test]
fn link_applies_a_proposal_from_the_listener() {
    proposal_from(false);
}

#[test]
fn both_computers_report_a_layout_applied_only_after_both_commits() {
    let mut pair = Pair::connected();
    pair.dialer.propose(b"agreed layout");
    pair.settle();
    assert_eq!(
        pair.listener.settled(),
        [completed(b"agreed layout", false)]
    );
    assert_eq!(pair.dialer.settled(), [completed(b"agreed layout", true)]);
    // The receiver commits first; the sender commits only on the confirmation.
    assert_eq!(pair.listener.commit_position, Some(0));
    assert_eq!(pair.dialer.commit_position, Some(1));
    assert_eq!(pair.dialer.counts(), (1, 1, 0));
    assert_eq!(pair.listener.counts(), (1, 1, 0));
    pair.close();
}

#[test]
fn a_receiver_that_cannot_commit_leaves_the_sender_uncommitted() {
    let mut pair = Pair::connected();
    pair.listener.commit_result = Err(LinkRejectReason::SaveFailed);
    pair.dialer.propose(b"layout the receiver cannot save");
    pair.settle();
    assert_eq!(
        pair.listener.settled(),
        [rejected(LinkRejectReason::SaveFailed, false)]
    );
    assert_eq!(
        pair.dialer.settled(),
        [rejected(LinkRejectReason::SaveFailed, true)]
    );
    // The sender staged, then discarded without ever renaming its own file into place.
    assert_eq!(pair.dialer.counts(), (1, 0, 1));
    assert_eq!(pair.listener.counts(), (1, 1, 1));
    pair.close();
}

#[test]
fn a_sender_that_cannot_commit_unwinds_the_receiver_that_already_did() {
    let mut pair = Pair::connected();
    pair.dialer.commit_result = Err(LinkRejectReason::SaveFailed);
    pair.dialer.propose(b"layout the sender cannot save");
    pair.settle();
    assert_eq!(
        pair.dialer.settled(),
        [rejected(LinkRejectReason::SaveFailed, true)]
    );
    // The receiver applied it, so it must be told the pair no longer agrees.
    assert_eq!(
        pair.listener.settled(),
        [
            completed(b"layout the sender cannot save", false),
            rejected(LinkRejectReason::SaveFailed, false)
        ]
    );
    assert_eq!(pair.dialer.counts(), (1, 1, 1));
    assert_eq!(pair.listener.counts(), (1, 1, 0));
    pair.close();
}

#[test]
fn link_refuses_one_of_two_simultaneous_proposals_as_busy() {
    let mut pair = Pair::connected();
    pair.dialer.propose(b"dialer layout");
    pair.listener.propose(b"listener layout");
    pair.settle();
    let outcome = |side: &Side| {
        let busy = side.settled().contains(&rejected(LinkRejectReason::Busy, true));
        let sent = side
            .settled()
            .iter()
            .any(|event| matches!(event, Event::Completed { sending: true, .. }));
        (busy, sent)
    };
    let (dialer_busy, dialer_sent) = outcome(&pair.dialer);
    let (listener_busy, listener_sent) = outcome(&pair.listener);
    assert!(
        dialer_busy != listener_busy,
        "exactly one side must be refused as busy"
    );
    assert!(
        dialer_sent != listener_sent,
        "exactly one layout may be applied"
    );
    // The refused side applies the winner's layout on the same link.
    assert_eq!(dialer_busy, !dialer_sent);
    assert_eq!(pair.dialer.counts(), (1, 1, 0));
    assert_eq!(pair.listener.counts(), (1, 1, 0));
    pair.close();
}

#[test]
fn link_rejects_a_proposal_the_receiver_cannot_stage_without_committing() {
    let mut pair = Pair::connected();
    pair.listener.stage_result = Err(LinkRejectReason::Invalid);
    pair.dialer.propose(b"unusable layout");
    pair.settle();
    assert_eq!(
        pair.dialer.settled(),
        [rejected(LinkRejectReason::Invalid, true)]
    );
    assert_eq!(
        pair.listener.settled(),
        [rejected(LinkRejectReason::Invalid, false)]
    );
    assert_eq!(pair.dialer.counts(), (0, 0, 0));
    assert_eq!(pair.listener.counts(), (1, 0, 1));
    pair.close();
}

#[test]
fn link_reconnects_on_the_same_endpoint_after_a_lost_connection() {
    let mut run = LinkRun::new();
    assert_eq!(run.begin(false), Ok(1));
    assert_eq!(run.established(established()), RunStep::Serve);
    let mut pair = Pair::connected();
    let actions = pair
        .dialer
        .link
        .end(LinkExit::Disconnected(LinkDisconnect::Transport));
    pair.dialer.act(actions);
    let exit = pair.dialer.exit.unwrap();
    assert_eq!(run.ended(exit), RunStep::Retry(LinkDisconnect::Transport));
    assert_eq!(run.begin(false), Ok(1));
    assert_eq!(run.established(established()), RunStep::Serve);
    let mut pair = Pair::connected();
    pair.dialer.propose(b"layout after reconnect");
    pair.settle();
    assert_eq!(
        pair.listener.settled(),
        [completed(b"layout after reconnect", false)]
    );
    pair.close();
}

#[test]
fn link_survives_past_the_silence_deadline_on_heartbeats_alone() {
    let mut pair = Pair::connected();
    let end = LINK_SILENCE_DEADLINE + from_millis(1_500);
    let mut now = 0;
    while now < end {
        now += LINK_HEARTBEAT_INTERVAL;
        pair.dialer.now = now;
        pair.listener.now = now;
        let beat = pair.dialer.link.heartbeat();
        pair.dialer.write(beat);
        let beat = pair.listener.link.heartbeat();
        pair.listener.write(beat);
        pair.settle();
        assert!(pair.dialer.link.guard(now, false).is_empty());
        assert!(pair.listener.link.guard(now, false).is_empty());
    }
    pair.dialer.propose(b"layout after idle");
    pair.settle();
    assert_eq!(
        pair.listener.settled(),
        [completed(b"layout after idle", false)]
    );
    assert_eq!(pair.listener.counts(), (1, 1, 0));
    pair.close();
}

#[test]
fn arranging_on_one_computer_is_reported_to_the_other_and_withdrawn_again() {
    let mut pair = Pair::connected();
    // Each side opens by naming its own state, so neither has to infer idleness.
    assert_eq!(pair.dialer.arranging_reports(), [false]);
    assert_eq!(pair.listener.arranging_reports(), [false]);
    pair.dialer.arranging(true);
    pair.settle();
    assert_eq!(pair.listener.arranging_reports(), [false, true]);
    assert!(pair.dialer.link.is_arranging());
    pair.dialer.arranging(true);
    pair.dialer.arranging(false);
    pair.settle();
    assert_eq!(pair.listener.arranging_reports(), [false, true, false]);
    pair.close();
}

#[test]
fn link_publishes_a_changed_local_topology_to_the_peer() {
    let mut pair = Pair::connected();
    let changed = topology(1, 300);
    assert!(!pair.dialer.link.has_new_displays(Some(&pair.dialer.displays)));
    assert!(!pair.dialer.link.has_new_displays(None));
    assert!(pair.dialer.link.has_new_displays(Some(&changed)));
    pair.dialer.published.push_back(changed.clone());
    let actions = pair
        .dialer
        .link
        .publish_local_topology(changed.clone(), Some(vec![1, 2, 3]));
    pair.dialer.act(actions);
    pair.settle();
    assert!(pair
        .listener
        .events
        .contains(&Event::Notice(LinkNotice::TopologyChanged)));
    let inspection = pair.listener.link.inspection();
    assert!(inspection.peer_displays.same_geometry(&changed));
    assert_eq!(inspection.peer_device, DeviceId([1; 16]));
    pair.close();
}

#[test]
fn a_silent_peer_ends_the_link_and_unwinds_its_transaction() {
    let mut pair = Pair::connected();
    pair.dialer.propose(b"unanswered");
    let actions = pair.dialer.link.guard(LINK_SILENCE_DEADLINE, false);
    pair.dialer.act(actions);
    assert_eq!(
        pair.dialer.settled(),
        [rejected(LinkRejectReason::Cancelled, true)]
    );
    assert_eq!(
        pair.dialer.exit,
        Some(LinkExit::Disconnected(LinkDisconnect::Silence))
    );
    pair.close();
}

#[test]
fn an_unanswered_transaction_ends_at_its_deadline_without_ending_the_link() {
    let mut pair = Pair::connected();
    pair.dialer.propose(b"unanswered");
    pair.dialer.link.heard(LINK_ACK_DEADLINE);
    assert!(pair
        .dialer
        .link
        .guard(LINK_ACK_DEADLINE - 1, false)
        .is_empty());
    let actions = pair.dialer.link.guard(LINK_ACK_DEADLINE, false);
    pair.dialer.act(actions);
    assert_eq!(
        pair.dialer.settled(),
        [rejected(LinkRejectReason::Cancelled, true)]
    );
    assert_eq!(pair.dialer.exit, None);
    pair.close();
}

#[test]
fn a_cancelled_link_discards_what_it_staged() {
    let mut pair = Pair::connected();
    pair.dialer.propose(b"half done");
    pair.listener.read_from(&mut pair.dialer);
    let actions = pair.listener.link.guard(0, true);
    pair.listener.act(actions);
    assert_eq!(pair.listener.counts(), (1, 0, 1));
    assert_eq!(
        pair.listener.settled(),
        [rejected(LinkRejectReason::Cancelled, false)]
    );
    assert_eq!(pair.listener.exit, Some(LinkExit::Cancelled));
    assert_eq!(
        LinkRun::new().ended(LinkExit::Cancelled),
        RunStep::Fail(SetupFailure::Cancelled)
    );
}

#[test]
fn frames_out_of_order_end_the_link() {
    for (number, kind) in [
        (LINK_START_SEQUENCE + 1, LinkKind::Heartbeat),
        (LINK_START_SEQUENCE, LinkKind::Ack),
        (LINK_START_SEQUENCE, LinkKind::Complete),
        (LINK_START_SEQUENCE, LinkKind::Committed),
    ] {
        let order = Rc::new(Cell::new(0));
        let mut side = Side::new(1, 2, &order, false);
        let mut frame = LinkFrame::with_digest(kind, epoch(), [5; 32]);
        frame.sequence = number;
        let actions = side.link.handle_frame(frame);
        side.act(actions);
        assert_eq!(
            side.exit,
            Some(LinkExit::Disconnected(LinkDisconnect::Transport))
        );
    }
}

#[test]
fn a_proposal_must_be_bounded_and_alone() {
    let mut pair = Pair::connected();
    pair.dialer.propose(b"");
    pair.dialer.propose(&vec![1; MAX_LAYOUT_PAYLOAD_BYTES + 1]);
    pair.dialer.propose(b"first");
    pair.dialer.propose(b"second");
    assert_eq!(
        pair.dialer.settled(),
        [
            rejected(LinkRejectReason::Invalid, true),
            rejected(LinkRejectReason::Invalid, true),
            rejected(LinkRejectReason::Busy, true)
        ]
    );
    pair.close();
}

#[test]
fn a_broken_stream_fails_the_reader_for_good() {
    let mut reader = LinkReader::new();
    let mut header = encode_link_frame(&LinkFrame::empty(LinkKind::Heartbeat, epoch()), VERSION)
        .unwrap();
    header[0] ^= 1;
    reader.fed(ReadOutcome::Bytes(header));
    assert!(matches!(
        reader.next_frame(VERSION),
        ReaderStep::Fail(LinkDisconnect::Transport)
    ));
    assert!(matches!(reader.next_frame(VERSION), ReaderStep::Fail(_)));
    let mut ended = LinkReader::new();
    assert!(matches!(ended.next_frame(VERSION), ReaderStep::Read(64)));
    ended.fed(ReadOutcome::End);
    assert!(matches!(ended.next_frame(VERSION), ReaderStep::Fail(_)));
}

#[test]
fn a_link_runs_until_it_is_closed_cancelled_or_refused() {
    let mut run = LinkRun::new();
    assert_eq!(run.begin(true), Err(SetupFailure::Cancelled));
    assert_eq!(
        run.established(Established::Failed(SetupFailure::Handshake)),
        RunStep::Retry(LinkDisconnect::Handshake)
    );
    assert_eq!(
        run.established(Established::Failed(SetupFailure::VersionMismatch)),
        RunStep::Fail(SetupFailure::VersionMismatch)
    );
    assert_eq!(
        run.established(Established::Session {
            purpose: SessionPurpose::Share,
            next_sequence: LINK_START_SEQUENCE
        }),
        RunStep::Retry(LinkDisconnect::Handshake)
    );
    assert_eq!(run.established(Established::Closed), RunStep::Close);
    assert_eq!(
        run.established(Established::Cancelled),
        RunStep::Fail(SetupFailure::Cancelled)
    );
    assert_eq!(
        run.ended(LinkExit::Cancelled),
        RunStep::Fail(SetupFailure::Cancelled)
    );
    assert_eq!(
        run.idle_command(Some(LinkCommand::Propose { bytes: vec![1] })),
        IdleStep::RefuseProposal
    );
    assert_eq!(
        run.idle_command(Some(LinkCommand::Arranging(true))),
        IdleStep::Wait
    );
    assert!(run.arranging);
    assert_eq!(
        attempt_reason(SetupFailure::Handshake),
        LinkDisconnect::Handshake
    );
}

#[test]
fn writes_and_waiting_frames_are_bounded() {
    assert_eq!(may_wait(MAX_PENDING_FRAMES - 1), Ok(()));
    assert_eq!(
        may_wait(MAX_PENDING_FRAMES),
        Err(LinkExit::Disconnected(LinkDisconnect::Transport))
    );
    assert_eq!(guard_write(0, LINK_SILENCE_DEADLINE - 1, false), Ok(()));
    assert_eq!(
        guard_write(0, LINK_SILENCE_DEADLINE, false),
        Err(LinkExit::Disconnected(LinkDisconnect::Silence))
    );
    assert_eq!(guard_write(0, 0, true), Err(LinkExit::Cancelled));
}

fn fingerprint_of(bytes: [u8; 32]) -> CertificateFingerprint {
    let text: String = bytes.iter().map(|byte| format!("{byte:02x}")).collect();
    CertificateFingerprint::parse_full(&text).expect("full fingerprint")
}

#[test]
fn a_link_keeps_what_is_known_of_both_computers() {
    let pair = Pair::connected();
    for (side, local, peer) in [(&pair.dialer, 1, 2), (&pair.listener, 2, 1)] {
        let inspection = side.link.inspection();
        assert!(inspection.local_fingerprint == fingerprint_of([local; 32]));
        assert!(inspection.peer_fingerprint == fingerprint_of([peer; 32]));
        assert_eq!(inspection.local_device, DeviceId([local; 16]));
        assert_eq!(inspection.peer_device, DeviceId([peer; 16]));
    }
    pair.close();
}
