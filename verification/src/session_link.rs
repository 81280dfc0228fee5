//! Standing authenticated setup link between two paired computers.
//!
//! The link carries display topology and layout proposals only. It never starts native input,
//! changes pairing trust, or binds anything but the one selected interface and pinned peer.

use crate::bytes::{
    append, copy_range, lemma_precedes_total, precedes, same_bytes,
};
use crate::crypto::{sha256, sha256_digest};
use crate::envelope::{
    announced_length, decode_envelope, encode_envelope, header_bytes, header_fields,
    law_a_header_has_its_fields_in_place, lemma_headers_read_back, payload_length, Envelope,
    EnvelopeView, ENVELOPE_LENGTH,
};
use crate::protocol::{
    same_geometries, DeviceId, DisplayDescription, DisplayTopology, Platform, SessionEpoch,
    SessionPurpose,
};
use crate::session_layout::{no_digest, MAX_LAYOUT_PAYLOAD_BYTES};
use crate::session_setup::{is_retried, is_transient, InspectedPeer, SetupFailure};
use crate::time::{span, Duration};
use vstd::prelude::*;
use vstd::slice::{slice_subrange, slice_to_vec};

verus! {

/// The dialing computer waits this long between dial attempts, 2 s. It is the only reconnect
/// cadence.
pub const LINK_DIAL_INTERVAL: Duration = 2_000_000_000;

/// One dial attempt covers connect plus negotiate in 4 s; the other computer accepts without this
/// bound.
pub const LINK_ATTEMPT_DEADLINE: Duration = 4_000_000_000;

/// 1 s.
pub const LINK_HEARTBEAT_INTERVAL: Duration = 1_000_000_000;

/// A link with no peer frame for this long, 5 s, is dropped and re-established.
pub const LINK_SILENCE_DEADLINE: Duration = 5_000_000_000;

/// Bounds every wait in one transaction: the acknowledgement, the completion, and the confirmation.
/// 10 s.
pub const LINK_ACK_DEADLINE: Duration = 10_000_000_000;

/// 2 s.
pub const LINK_TOPOLOGY_POLL: Duration = 2_000_000_000;

/// 100 ms.
pub const LINK_GUARD_INTERVAL: Duration = 100_000_000;

/// Matches the wire value of the setup purpose, so a layout frame can never decode as a link frame.
pub const LINK_PURPOSE: u8 = 5;

/// The three handshake frames occupy sequences 0 through 2 in each direction.
pub const LINK_START_SEQUENCE: u64 = 3;

pub const TOPOLOGY_FRAME_SEQUENCE: u64 = 0;

pub const LINK_CLOSE_CODE: u32 = 5;

pub const LINK_CLOSE_REASON: &'static str = "setup link closed";

/// Frames read while a write is in flight. A peer that exceeds this is not following the cadence.
pub const MAX_PENDING_FRAMES: usize = 16;

#[derive(Clone, Copy, Debug, PartialEq, Eq, Structural)]
pub enum LinkRejectReason {
    Invalid,
    InspectionChanged,
    SaveFailed,
    Busy,
    Cancelled,
}

#[derive(Clone, Copy, Debug, PartialEq, Eq, Structural)]
pub enum LinkDisconnect {
    PeerClosed,
    Silence,
    Transport,
    Handshake,
    Attempt,
}

pub open spec fn attempt_class(failure: SetupFailure) -> LinkDisconnect {
    match failure {
        SetupFailure::Handshake => LinkDisconnect::Handshake,
        _ => LinkDisconnect::Attempt,
    }
}

pub fn attempt_reason(failure: SetupFailure) -> (reason: LinkDisconnect)
    ensures
        reason == attempt_class(failure),
{
    match failure {
        SetupFailure::Handshake => LinkDisconnect::Handshake,
        _ => LinkDisconnect::Attempt,
    }
}

/// Why an attempt that took too long failed: a dialer never reached the peer, a listener had it and
/// could not agree.
pub fn attempt_timeout(dials: bool) -> (failure: SetupFailure)
    ensures
        failure == (if dials {
            SetupFailure::Connection
        } else {
            SetupFailure::Handshake
        }),
{
    if dials {
        SetupFailure::Connection
    } else {
        SetupFailure::Handshake
    }
}

/// Simultaneous proposals resolve to the lower device id, so both sides pick the same winner.
pub fn local_proposal_wins(local: DeviceId, peer: DeviceId) -> (wins: bool)
    ensures
        wins == precedes(local.0@, peer.0@),
{
    local.is_lower_than(&peer)
}

/// Of two computers that propose at once exactly one wins, and both name the same one.
pub proof fn law_simultaneous_proposals_have_one_winner(first: Seq<u8>, second: Seq<u8>)
    requires
        first != second,
    ensures
        precedes(first, second) != precedes(second, first),
{
    lemma_precedes_total(first, second);
}

#[derive(Clone, Copy, Debug, PartialEq, Eq, Structural)]
pub enum LinkKind {
    Heartbeat,
    Topology,
    Proposal,
    Ack,
    Reject,
    Complete,
    Bye,
    Committed,
    /// One byte, 0 or 1: whether the sender's user is arranging displays right now.
    Arranging,
}

impl LinkKind {
    pub open spec fn code(self) -> u8 {
        match self {
            LinkKind::Heartbeat => 1,
            LinkKind::Topology => 2,
            LinkKind::Proposal => 3,
            LinkKind::Ack => 4,
            LinkKind::Reject => 5,
            LinkKind::Complete => 6,
            LinkKind::Bye => 7,
            LinkKind::Committed => 8,
            LinkKind::Arranging => 9,
        }
    }

    pub open spec fn of_code(value: u8) -> Option<LinkKind> {
        match value {
            1 => Some(LinkKind::Heartbeat),
            2 => Some(LinkKind::Topology),
            3 => Some(LinkKind::Proposal),
            4 => Some(LinkKind::Ack),
            5 => Some(LinkKind::Reject),
            6 => Some(LinkKind::Complete),
            7 => Some(LinkKind::Bye),
            8 => Some(LinkKind::Committed),
            9 => Some(LinkKind::Arranging),
            _ => None,
        }
    }

    pub fn wire(self) -> (value: u8)
        ensures
            value == self.code(),
    {
        match self {
            LinkKind::Heartbeat => 1,
            LinkKind::Topology => 2,
            LinkKind::Proposal => 3,
            LinkKind::Ack => 4,
            LinkKind::Reject => 5,
            LinkKind::Complete => 6,
            LinkKind::Bye => 7,
            LinkKind::Committed => 8,
            LinkKind::Arranging => 9,
        }
    }

    pub fn from_wire(value: u8) -> (kind: Result<LinkKind, LinkDisconnect>)
        ensures
            match LinkKind::of_code(value) {
                Some(known) => kind == Ok::<_, LinkDisconnect>(known),
                None => kind == Err::<LinkKind, _>(LinkDisconnect::Transport),
            },
    {
        match value {
            1 => Ok(LinkKind::Heartbeat),
            2 => Ok(LinkKind::Topology),
            3 => Ok(LinkKind::Proposal),
            4 => Ok(LinkKind::Ack),
            5 => Ok(LinkKind::Reject),
            6 => Ok(LinkKind::Complete),
            7 => Ok(LinkKind::Bye),
            8 => Ok(LinkKind::Committed),
            9 => Ok(LinkKind::Arranging),
            _ => Err(LinkDisconnect::Transport),
        }
    }
}

pub open spec fn arranging_byte(arranging: bool) -> u8 {
    if arranging {
        1
    } else {
        0
    }
}

pub fn arranging_payload(arranging: bool) -> (value: u8)
    ensures
        value == arranging_byte(arranging),
{
    if arranging {
        1
    } else {
        0
    }
}

pub open spec fn reject_code(reason: LinkRejectReason) -> u8 {
    match reason {
        LinkRejectReason::Invalid => 1,
        LinkRejectReason::InspectionChanged => 2,
        LinkRejectReason::SaveFailed => 3,
        LinkRejectReason::Busy => 4,
        LinkRejectReason::Cancelled => 5,
    }
}

pub open spec fn reject_of_code(value: u8) -> Option<LinkRejectReason> {
    match value {
        1 => Some(LinkRejectReason::Invalid),
        2 => Some(LinkRejectReason::InspectionChanged),
        3 => Some(LinkRejectReason::SaveFailed),
        4 => Some(LinkRejectReason::Busy),
        5 => Some(LinkRejectReason::Cancelled),
        _ => None,
    }
}

pub fn reject_wire(reason: LinkRejectReason) -> (value: u8)
    ensures
        value == reject_code(reason),
{
    match reason {
        LinkRejectReason::Invalid => 1,
        LinkRejectReason::InspectionChanged => 2,
        LinkRejectReason::SaveFailed => 3,
        LinkRejectReason::Busy => 4,
        LinkRejectReason::Cancelled => 5,
    }
}

pub fn reject_from_wire(value: u8) -> (reason: Result<LinkRejectReason, LinkDisconnect>)
    ensures
        match reject_of_code(value) {
            Some(known) => reason == Ok::<_, LinkDisconnect>(known),
            None => reason == Err::<LinkRejectReason, _>(LinkDisconnect::Transport),
        },
{
    match value {
        1 => Ok(LinkRejectReason::Invalid),
        2 => Ok(LinkRejectReason::InspectionChanged),
        3 => Ok(LinkRejectReason::SaveFailed),
        4 => Ok(LinkRejectReason::Busy),
        5 => Ok(LinkRejectReason::Cancelled),
        _ => Err(LinkDisconnect::Transport),
    }
}

#[derive(Debug)]
pub struct LinkFrame {
    pub kind: LinkKind,
    pub reason: Option<LinkRejectReason>,
    pub epoch: SessionEpoch,
    pub sequence: u64,
    pub digest: [u8; 32],
    pub payload: Vec<u8>,
}

#[verifier::ext_equal]
pub struct LinkFrameView {
    pub kind: LinkKind,
    pub reason: Option<LinkRejectReason>,
    pub epoch: SessionEpoch,
    pub sequence: u64,
    pub digest: Seq<u8>,
    pub payload: Seq<u8>,
}

impl View for LinkFrame {
    type V = LinkFrameView;

    open spec fn view(&self) -> LinkFrameView {
        LinkFrameView {
            kind: self.kind,
            reason: self.reason,
            epoch: self.epoch,
            sequence: self.sequence,
            digest: self.digest@,
            payload: self.payload@,
        }
    }
}

/// A frame of a kind that carries nothing.
pub open spec fn empty_frame(kind: LinkKind, epoch: SessionEpoch) -> LinkFrameView {
    LinkFrameView {
        kind,
        reason: None,
        epoch,
        sequence: 0,
        digest: no_digest(),
        payload: Seq::empty(),
    }
}

/// A frame with a payload and its digest.
pub open spec fn payload_frame(
    kind: LinkKind,
    epoch: SessionEpoch,
    payload: Seq<u8>,
) -> LinkFrameView {
    LinkFrameView { kind, reason: None, epoch, sequence: 0, digest: sha256(payload), payload }
}

/// A frame that names a payload by its digest.
pub open spec fn digest_frame(
    kind: LinkKind,
    epoch: SessionEpoch,
    digest: Seq<u8>,
) -> LinkFrameView {
    LinkFrameView { kind, reason: None, epoch, sequence: 0, digest, payload: Seq::empty() }
}

/// A refusal of the payload with this digest.
pub open spec fn reject_frame(
    epoch: SessionEpoch,
    digest: Seq<u8>,
    reason: LinkRejectReason,
) -> LinkFrameView {
    LinkFrameView {
        kind: LinkKind::Reject,
        reason: Some(reason),
        epoch,
        sequence: 0,
        digest,
        payload: Seq::empty(),
    }
}

impl LinkFrame {
    pub fn empty(kind: LinkKind, epoch: SessionEpoch) -> (frame: LinkFrame)
        ensures
            frame@ == empty_frame(kind, epoch),
    {
        let digest = [0u8; 32];
        assert(digest@ =~= no_digest());
        LinkFrame { kind, reason: None, epoch, sequence: 0, digest, payload: Vec::new() }
    }

    pub fn with_payload(kind: LinkKind, epoch: SessionEpoch, payload: Vec<u8>) -> (frame: LinkFrame)
        ensures
            frame@ == payload_frame(kind, epoch, payload@),
    {
        let digest = digest(payload.as_slice());
        LinkFrame { kind, reason: None, epoch, sequence: 0, digest, payload }
    }

    pub fn with_digest(kind: LinkKind, epoch: SessionEpoch, digest: [u8; 32]) -> (frame: LinkFrame)
        ensures
            frame@ == digest_frame(kind, epoch, digest@),
    {
        LinkFrame { kind, reason: None, epoch, sequence: 0, digest, payload: Vec::new() }
    }

    pub fn rejection(epoch: SessionEpoch, digest: [u8; 32], reason: LinkRejectReason) -> (frame:
        LinkFrame)
        ensures
            frame@ == reject_frame(epoch, digest@, reason),
    {
        LinkFrame {
            kind: LinkKind::Reject,
            reason: Some(reason),
            epoch,
            sequence: 0,
            digest,
            payload: Vec::new(),
        }
    }
}

impl LinkFrameView {
    /// Each kind of frame carries what it is for and nothing else.
    pub open spec fn is_valid(self) -> bool {
        &&& self.payload.len() <= MAX_LAYOUT_PAYLOAD_BYTES
        &&& match self.kind {
            LinkKind::Heartbeat | LinkKind::Bye => self.reason is None && self.payload.len() == 0
                && self.digest == no_digest(),
            LinkKind::Topology | LinkKind::Proposal => self.reason is None && self.payload.len() > 0
                && self.digest == sha256(self.payload),
            LinkKind::Ack | LinkKind::Complete | LinkKind::Committed => self.reason is None
                && self.payload.len() == 0,
            LinkKind::Reject => self.reason is Some && self.payload.len() == 0,
            LinkKind::Arranging => self.reason is None && self.payload.len() == 1 && (
            self.payload[0] == 0 || self.payload[0] == 1) && self.digest == sha256(self.payload),
        }
    }

    pub open spec fn envelope(self) -> EnvelopeView {
        EnvelopeView {
            kind: self.kind.code(),
            detail: match self.reason {
                Some(reason) => reject_code(reason),
                None => 0,
            },
            epoch: self.epoch.value,
            sequence: self.sequence,
            digest: self.digest,
        }
    }

    /// The bytes of a frame.
    pub open spec fn bytes(self, version: u16) -> Seq<u8> {
        header_bytes(version, LINK_PURPOSE, self.envelope(), self.payload.len()) + self.payload
    }
}

/// The reason that a header names, where it is none or a known one.
pub open spec fn reason_of(detail: u8) -> Option<Option<LinkRejectReason>> {
    if detail == 0 {
        Some(None)
    } else {
        match reject_of_code(detail) {
            Some(reason) => Some(Some(reason)),
            None => None,
        }
    }
}

/// The frame that a header and a payload make.
pub open spec fn decoded_link(version: u16, header: Seq<u8>, payload: Seq<u8>) -> Option<
    LinkFrameView,
> {
    match header_fields(version, LINK_PURPOSE, header) {
        None => None,
        Some(fields) => match (LinkKind::of_code(fields.kind), reason_of(fields.detail)) {
            (Some(kind), Some(reason)) => {
                let frame = LinkFrameView {
                    kind,
                    reason,
                    epoch: SessionEpoch { value: fields.epoch },
                    sequence: fields.sequence,
                    digest: fields.digest,
                    payload,
                };
                if fields.epoch != 0 && announced_length(header) == payload.len()
                    && frame.is_valid() {
                    Some(frame)
                } else {
                    None
                }
            },
            _ => None,
        },
    }
}

/// A link frame reads back as it was written.
pub proof fn law_link_frames_read_back(version: u16, frame: LinkFrameView)
    requires
        frame.is_valid(),
        frame.epoch.wf(),
        frame.digest.len() == 32,
    ensures
        decoded_link(version, frame.bytes(version).take(64), frame.bytes(version).skip(64)) == Some(
            frame,
        ),
        frame.bytes(version).len() == 64 + frame.payload.len(),
        announced_length(frame.bytes(version).take(64)) == frame.payload.len(),
{
    let header = header_bytes(version, LINK_PURPOSE, frame.envelope(), frame.payload.len());
    lemma_headers_read_back(version, LINK_PURPOSE, frame.envelope(), frame.payload.len());
    assert(frame.bytes(version).take(64) =~= header);
    assert(frame.bytes(version).skip(64) =~= frame.payload);
}

/// A layout frame never reads as a link frame, nor a link frame as a layout frame.
pub proof fn law_layout_and_link_frames_stay_apart(
    version: u16,
    header: Seq<u8>,
    payload: Seq<u8>,
)
    ensures
        decoded_link(version, header, payload) is None || crate::session_layout::decoded_layout(
            version,
            header,
            payload,
        ) is None,
{
}

pub fn encode_link_frame(frame: &LinkFrame, version: u16) -> (bytes: Result<Vec<u8>, LinkDisconnect>)
    ensures
        match bytes {
            Ok(encoded) => frame@.is_valid() && encoded@ == frame@.bytes(version),
            Err(error) => !frame@.is_valid() && error == LinkDisconnect::Transport,
        },
{
    if let Err(error) = validate_link_frame(frame) {
        return Err(error);
    }
    let envelope = Envelope {
        kind: frame.kind.wire(),
        detail: match frame.reason {
            Some(reason) => reject_wire(reason),
            None => 0,
        },
        epoch: frame.epoch.get(),
        sequence: frame.sequence,
        digest: frame.digest,
    };
    assert(envelope@ == frame@.envelope());
    Ok(encode_envelope(version, LINK_PURPOSE, &envelope, frame.payload.as_slice()))
}

pub fn decode_link_frame(header: &[u8], payload: Vec<u8>, version: u16) -> (frame: Result<
    LinkFrame,
    LinkDisconnect,
>)
    ensures
        match decoded_link(version, header@, payload@) {
            Some(view) => frame matches Ok(decoded) && decoded@ == view,
            None => frame == Err::<LinkFrame, _>(LinkDisconnect::Transport),
        },
{
    let fields = match decode_envelope(version, LINK_PURPOSE, header) {
        Some(fields) => fields,
        None => return Err(LinkDisconnect::Transport),
    };
    let kind = match LinkKind::from_wire(fields.kind) {
        Ok(kind) => kind,
        Err(error) => return Err(error),
    };
    let reason = if fields.detail == 0 {
        None
    } else {
        match reject_from_wire(fields.detail) {
            Ok(reason) => Some(reason),
            Err(error) => return Err(error),
        }
    };
    let epoch = match SessionEpoch::new(fields.epoch) {
        Some(epoch) => epoch,
        None => return Err(LinkDisconnect::Transport),
    };
    if payload_length(header) != payload.len() as u64 {
        return Err(LinkDisconnect::Transport);
    }
    let frame = LinkFrame {
        kind,
        reason,
        epoch,
        sequence: fields.sequence,
        digest: fields.digest,
        payload,
    };
    match validate_link_frame(&frame) {
        Ok(()) => Ok(frame),
        Err(error) => Err(error),
    }
}

pub fn validate_link_frame(frame: &LinkFrame) -> (result: Result<(), LinkDisconnect>)
    ensures
        result == (if frame@.is_valid() {
            Ok::<(), LinkDisconnect>(())
        } else {
            Err::<(), LinkDisconnect>(LinkDisconnect::Transport)
        }),
{
    if frame.payload.len() > MAX_LAYOUT_PAYLOAD_BYTES {
        return Err(LinkDisconnect::Transport);
    }
    let none = [0u8; 32];
    assert(none@ =~= no_digest());
    let valid = match frame.kind {
        LinkKind::Heartbeat | LinkKind::Bye => frame.reason.is_none() && frame.payload.is_empty()
            && same_bytes(&frame.digest, &none),
        LinkKind::Topology | LinkKind::Proposal => frame.reason.is_none()
            && !frame.payload.is_empty() && same_bytes(
            &frame.digest,
            &digest(frame.payload.as_slice()),
        ),
        LinkKind::Ack | LinkKind::Complete | LinkKind::Committed => frame.reason.is_none()
            && frame.payload.is_empty(),
        LinkKind::Reject => frame.reason.is_some() && frame.payload.is_empty(),
        LinkKind::Arranging => frame.reason.is_none() && frame.payload.len() == 1 && (
        frame.payload[0] == 0 || frame.payload[0] == 1) && same_bytes(
            &frame.digest,
            &digest(frame.payload.as_slice()),
        ),
    };
    if valid {
        Ok(())
    } else {
        Err(LinkDisconnect::Transport)
    }
}

/// What the protocol decoded out of a topology payload.
pub struct DecodedTopology {
    pub epoch: SessionEpoch,
    pub sequence: u64,
    /// The displays, where the message holds any.
    pub topology: Option<DisplayTopology>,
}

/// The displays of a decoded payload, where it belongs to this link.
pub open spec fn link_topology(decoded: Option<DecodedTopology>, epoch: SessionEpoch) -> Option<
    Seq<DisplayDescription>,
> {
    match decoded {
        Some(message) => if message.epoch == epoch && message.sequence == TOPOLOGY_FRAME_SEQUENCE {
            match message.topology {
                Some(topology) => Some(topology@),
                None => None,
            }
        } else {
            None
        },
        None => None,
    }
}

pub fn decode_topology(decoded: Option<DecodedTopology>, epoch: SessionEpoch) -> (topology: Result<
    DisplayTopology,
    LinkDisconnect,
>)
    ensures
        match link_topology(decoded, epoch) {
            Some(displays) => topology matches Ok(read) && read@ == displays,
            None => topology == Err::<DisplayTopology, _>(LinkDisconnect::Transport),
        },
{
    match decoded {
        Some(message) => {
            if message.epoch != epoch || message.sequence != TOPOLOGY_FRAME_SEQUENCE {
                return Err(LinkDisconnect::Transport);
            }
            match message.topology {
                Some(topology) => Ok(topology),
                None => Err(LinkDisconnect::Transport),
            }
        },
        None => Err(LinkDisconnect::Transport),
    }
}

fn digest(payload: &[u8]) -> (digest: [u8; 32])
    ensures
        digest@ == sha256(payload@),
{
    sha256_digest(payload)
}

/// What a read of the stream gave.
pub enum ReadOutcome {
    Bytes(Vec<u8>),
    End,
    Failed,
}

/// What a reader does next.
pub enum ReaderStep {
    Frame(LinkFrame),
    /// Read at most this many bytes.
    Read(usize),
    Fail(LinkDisconnect),
}

/// An incremental reader for one ordered link stream.
///
/// Nothing is lost between two reads: what left the stream stands in the reader.
pub struct LinkReader {
    buffer: Vec<u8>,
    terminal: bool,
}

#[verifier::ext_equal]
pub struct ReaderView {
    /// The bytes of the frame that is under way.
    pub buffer: Seq<u8>,
    pub terminal: bool,
}

impl View for LinkReader {
    type V = ReaderView;

    closed spec fn view(&self) -> ReaderView {
        ReaderView { buffer: self.buffer@, terminal: self.terminal }
    }
}

/// What taking a frame out of a reader gives.
pub enum TakenView {
    Nothing,
    Frame(LinkFrameView),
    Fault,
}

impl ReaderView {
    /// The whole frame under way, as far as its header is there.
    pub open spec fn whole(self) -> nat {
        64 + announced_length(self.buffer.take(64))
    }

    pub open spec fn wf(self) -> bool {
        self.buffer.len() > 64 ==> self.buffer.len() <= self.whole() && announced_length(
            self.buffer.take(64),
        ) <= MAX_LAYOUT_PAYLOAD_BYTES
    }

    pub open spec fn taken(self, version: u16) -> (ReaderView, TakenView) {
        if self.buffer.len() < 64 {
            (self, TakenView::Nothing)
        } else if announced_length(self.buffer.take(64)) > MAX_LAYOUT_PAYLOAD_BYTES {
            (ReaderView { terminal: true, ..self }, TakenView::Fault)
        } else if self.buffer.len() < self.whole() {
            (self, TakenView::Nothing)
        } else {
            match decoded_link(version, self.buffer.take(64), self.buffer.skip(64)) {
                Some(frame) => (
                    ReaderView { buffer: Seq::empty(), ..self },
                    TakenView::Frame(frame),
                ),
                None => (
                    ReaderView { buffer: Seq::empty(), terminal: true },
                    TakenView::Fault,
                ),
            }
        }
    }

    /// How many bytes the reader still needs for its header or its payload.
    pub open spec fn wanted(self) -> int {
        if self.buffer.len() < 64 {
            64 - self.buffer.len()
        } else {
            self.whole() - self.buffer.len()
        }
    }
}

impl LinkReader {
    pub fn new() -> (reader: LinkReader)
        ensures
            reader@ == (ReaderView { buffer: Seq::empty(), terminal: false }),
            reader@.wf(),
    {
        LinkReader { buffer: Vec::new(), terminal: false }
    }

    /// The next frame, where it is complete, or how much to read for it.
    pub fn next_frame(&mut self, version: u16) -> (step: ReaderStep)
        requires
            old(self)@.wf(),
        ensures
            final(self)@.wf(),
            if old(self)@.terminal {
                step == ReaderStep::Fail(LinkDisconnect::Transport) && final(self)@ == old(self)@
            } else {
                let (after, taken) = old(self)@.taken(version);
                final(self)@ == after && match taken {
                    TakenView::Frame(view) => step matches ReaderStep::Frame(frame) && frame@
                        == view,
                    TakenView::Nothing => step matches ReaderStep::Read(count) && count
                        == after.wanted() && count > 0,
                    TakenView::Fault => step == ReaderStep::Fail(LinkDisconnect::Transport),
                }
            },
    {
        if self.terminal {
            return ReaderStep::Fail(LinkDisconnect::Transport);
        }
        match self.take_complete(version) {
            Err(reason) => ReaderStep::Fail(reason),
            Ok(Some(frame)) => ReaderStep::Frame(frame),
            Ok(None) => {
                if self.buffer.len() < ENVELOPE_LENGTH {
                    ReaderStep::Read(ENVELOPE_LENGTH - self.buffer.len())
                } else {
                    let header = slice_subrange(self.buffer.as_slice(), 0, ENVELOPE_LENGTH);
                    assert(header@ =~= self.buffer@.take(64));
                    let declared: usize = payload_length(header) as usize;
                    ReaderStep::Read(ENVELOPE_LENGTH + declared - self.buffer.len())
                }
            },
        }
    }

    /// Takes in what a read gave. A clean end between frames is the peer leaving; a partial frame
    /// is a fault.
    pub fn fed(&mut self, read: ReadOutcome) -> (result: Result<(), LinkDisconnect>)
        requires
            old(self)@.wf(),
            read matches ReadOutcome::Bytes(bytes) ==> bytes@.len() <= old(self)@.wanted() && (
            old(self)@.buffer.len() >= 64 ==> announced_length(old(self)@.buffer.take(64))
                <= MAX_LAYOUT_PAYLOAD_BYTES),
        ensures
            final(self)@.wf(),
            match read {
                ReadOutcome::Bytes(bytes) => if bytes@.len() > 0 {
                    result == Ok::<(), LinkDisconnect>(()) && final(self)@ == (ReaderView {
                        buffer: old(self)@.buffer + bytes@,
                        ..old(self)@
                    })
                } else {
                    result == end_of_stream(old(self)@) && final(self)@ == (ReaderView {
                        terminal: true,
                        ..old(self)@
                    })
                },
                ReadOutcome::End => result == end_of_stream(old(self)@) && final(self)@ == (
                ReaderView { terminal: true, ..old(self)@ }),
                ReadOutcome::Failed => result == Err::<(), _>(LinkDisconnect::Transport) && final(
                    self)@ == (ReaderView { terminal: true, ..old(self)@ }),
            },
    {
        match read {
            ReadOutcome::Bytes(bytes) => {
                if bytes.is_empty() {
                    self.terminal = true;
                    return self.ended();
                }
                let ghost before = self.buffer@;
                append(&mut self.buffer, bytes.as_slice());
                proof {
                    if before.len() >= 64 {
                        assert(self.buffer@.take(64) =~= before.take(64));
                    }
                }
                Ok(())
            },
            ReadOutcome::End => {
                self.terminal = true;
                self.ended()
            },
            ReadOutcome::Failed => {
                self.terminal = true;
                Err(LinkDisconnect::Transport)
            },
        }
    }

    fn ended(&self) -> (result: Result<(), LinkDisconnect>)
        ensures
            result == end_of_stream(self@),
    {
        if self.buffer.is_empty() {
            Err(LinkDisconnect::PeerClosed)
        } else {
            Err(LinkDisconnect::Transport)
        }
    }

    fn take_complete(&mut self, version: u16) -> (frame: Result<Option<LinkFrame>, LinkDisconnect>)
        requires
            old(self)@.wf(),
        ensures
            final(self)@.wf(),
            ({
                let (after, taken) = old(self)@.taken(version);
                final(self)@ == after && match taken {
                    TakenView::Frame(view) => frame matches Ok(Some(complete)) && complete@ == view,
                    TakenView::Nothing => frame == Ok::<Option<LinkFrame>, LinkDisconnect>(None),
                    TakenView::Fault => frame == Err::<Option<LinkFrame>, _>(
                        LinkDisconnect::Transport,
                    ),
                }
            }),
    {
        if self.buffer.len() < ENVELOPE_LENGTH {
            return Ok(None);
        }
        let header = slice_to_vec(slice_subrange(self.buffer.as_slice(), 0, ENVELOPE_LENGTH));
        assert(header@ =~= self.buffer@.take(64));
        let declared: u64 = payload_length(header.as_slice());
        if declared > MAX_LAYOUT_PAYLOAD_BYTES as u64 {
            self.terminal = true;
            return Err(LinkDisconnect::Transport);
        }
        if (self.buffer.len() - ENVELOPE_LENGTH) as u64 != declared {
            return Ok(None);
        }
        let payload = copy_range(self.buffer.as_slice(), ENVELOPE_LENGTH, self.buffer.len());
        assert(payload@ =~= self.buffer@.skip(64));
        self.buffer = Vec::new();
        match decode_link_frame(header.as_slice(), payload, version) {
            Ok(frame) => Ok(Some(frame)),
            Err(reason) => {
                self.terminal = true;
                Err(reason)
            },
        }
    }
}

pub open spec fn end_of_stream(reader: ReaderView) -> Result<(), LinkDisconnect> {
    if reader.buffer.len() == 0 {
        Err(LinkDisconnect::PeerClosed)
    } else {
        Err(LinkDisconnect::Transport)
    }
}

/// However a frame's bytes are cut up, the reader waits for the rest of every beginning, wants no
/// byte of the next frame, and gives the frame when it is whole.
pub proof fn law_frames_are_put_together(version: u16, frame: LinkFrameView, count: nat)
    requires
        frame.is_valid(),
        frame.epoch.wf(),
        frame.digest.len() == 32,
        count <= frame.bytes(version).len(),
    ensures
        ({
            let reader = ReaderView {
                buffer: frame.bytes(version).take(count as int),
                terminal: false,
            };
            &&& reader.wf()
            &&& count < frame.bytes(version).len() ==> reader.taken(version) == (
                reader,
                TakenView::Nothing,
            ) && 0 < reader.wanted() <= frame.bytes(version).len() - count
            &&& count == frame.bytes(version).len() ==> reader.taken(version) == (
                ReaderView { buffer: Seq::empty(), terminal: false },
                TakenView::Frame(frame),
            )
        }),
{
    law_link_frames_read_back(version, frame);
    let bytes = frame.bytes(version);
    let buffer = bytes.take(count as int);
    if count >= 64 {
        assert(buffer.take(64) =~= bytes.take(64));
    }
    if count == bytes.len() {
        assert(buffer =~= bytes);
    }
}

/// Neither computer commits before the other has staged: Proposal, Ack, Complete, Committed.
/// The receiver commits on Complete; the sender commits only on the Committed that answers it.
pub enum SyncState {
    Idle,
    Sending { bytes: Vec<u8>, digest: [u8; 32], deadline: Option<Duration> },
    /// The sender has staged and told the peer to commit; it awaits the peer's Committed.
    Confirming { bytes: Vec<u8>, digest: [u8; 32], deadline: Option<Duration> },
    Receiving { bytes: Vec<u8>, digest: [u8; 32], deadline: Option<Duration> },
}

pub enum SyncStateView {
    Idle,
    Sending { bytes: Seq<u8>, digest: Seq<u8>, deadline: Option<Duration> },
    Confirming { bytes: Seq<u8>, digest: Seq<u8>, deadline: Option<Duration> },
    Receiving { bytes: Seq<u8>, digest: Seq<u8>, deadline: Option<Duration> },
}

impl View for SyncState {
    type V = SyncStateView;

    open spec fn view(&self) -> SyncStateView {
        match self {
            SyncState::Idle => SyncStateView::Idle,
            SyncState::Sending { bytes, digest, deadline } => SyncStateView::Sending {
                bytes: bytes@,
                digest: digest@,
                deadline: *deadline,
            },
            SyncState::Confirming { bytes, digest, deadline } => SyncStateView::Confirming {
                bytes: bytes@,
                digest: digest@,
                deadline: *deadline,
            },
            SyncState::Receiving { bytes, digest, deadline } => SyncStateView::Receiving {
                bytes: bytes@,
                digest: digest@,
                deadline: *deadline,
            },
        }
    }
}

/// Which shared-file step is under way, and for which layout.
#[derive(Clone, Copy, Debug, PartialEq, Eq, Structural)]
pub enum PersistStep {
    /// The peer's proposal is being staged.
    StageReceived,
    /// The own proposal is being staged after the peer's acknowledgement.
    StageSent,
    /// The peer's proposal is being committed.
    CommitReceived,
    /// The own proposal is being committed after the peer's confirmation.
    CommitSent,
}

pub struct Persisting {
    pub step: PersistStep,
    pub bytes: Vec<u8>,
    pub digest: [u8; 32],
}

#[verifier::ext_equal]
pub struct PersistingView {
    pub step: PersistStep,
    pub bytes: Seq<u8>,
    pub digest: Seq<u8>,
}

impl View for Persisting {
    type V = PersistingView;

    open spec fn view(&self) -> PersistingView {
        PersistingView { step: self.step, bytes: self.bytes@, digest: self.digest@ }
    }
}

/// How one established link ended.
#[derive(Clone, Copy, Debug, PartialEq, Eq, Structural)]
pub enum LinkExit {
    Closed,
    Cancelled,
    Disconnected(LinkDisconnect),
}

/// What the link tells its owner, beside a completed layout.
#[derive(Clone, Copy, Debug, PartialEq, Eq, Structural)]
pub enum LinkNotice {
    TopologyChanged,
    SyncStarted { sending: bool },
    SyncRejected { reason: LinkRejectReason, sending: bool },
    /// The other computer's arranging state, sent on connect and on every change.
    PeerArranging { arranging: bool },
}

/// What the link does, in order. A write that fails, or an owner that is gone, ends the link.
pub enum LinkAction {
    Write(LinkFrame),
    Notify(LinkNotice),
    /// The layout is in place on this computer.
    Completed { bytes: Vec<u8>, sending: bool },
    /// Stage this layout, and report what came of it.
    Stage(Vec<u8>),
    /// Commit the staged layout, and report what came of it.
    Commit(Vec<u8>),
    Discard,
    /// The wait for the peer's next frame begins.
    StartDeadline,
    /// Decode the peer's displays, and report what came of it.
    DecodeTopology(Vec<u8>),
    Exit(LinkExit),
}

pub enum LinkActionView {
    Write(LinkFrameView),
    Notify(LinkNotice),
    Completed { bytes: Seq<u8>, sending: bool },
    Stage(Seq<u8>),
    Commit(Seq<u8>),
    Discard,
    StartDeadline,
    DecodeTopology(Seq<u8>),
    Exit(LinkExit),
}

impl View for LinkAction {
    type V = LinkActionView;

    open spec fn view(&self) -> LinkActionView {
        match self {
            LinkAction::Write(frame) => LinkActionView::Write(frame@),
            LinkAction::Notify(notice) => LinkActionView::Notify(*notice),
            LinkAction::Completed { bytes, sending } => LinkActionView::Completed {
                bytes: bytes@,
                sending: *sending,
            },
            LinkAction::Stage(bytes) => LinkActionView::Stage(bytes@),
            LinkAction::Commit(bytes) => LinkActionView::Commit(bytes@),
            LinkAction::Discard => LinkActionView::Discard,
            LinkAction::StartDeadline => LinkActionView::StartDeadline,
            LinkAction::DecodeTopology(bytes) => LinkActionView::DecodeTopology(bytes@),
            LinkAction::Exit(exit) => LinkActionView::Exit(*exit),
        }
    }
}

pub open spec fn action_views(actions: Seq<LinkAction>) -> Seq<LinkActionView> {
    actions.map_values(|action: LinkAction| action@)
}

/// The state of one established connection: the order of its frames and the sync transaction.
#[verifier::ext_equal]
pub struct LinkView {
    pub epoch: SessionEpoch,
    pub next_sequence: u64,
    pub expected_sequence: u64,
    pub last_peer: Duration,
    pub sync: SyncStateView,
    pub persisting: Option<PersistingView>,
    /// Digest of a proposal dropped after losing the tie-break; its reject unwinds nothing.
    pub abandoned: Option<Seq<u8>>,
    /// Digest this computer committed as receiver; a later reject for it means the pair disagrees.
    pub committed: Option<Seq<u8>>,
    pub arranging: bool,
    pub local_device: Seq<u8>,
    pub peer_device: Seq<u8>,
    pub local_displays: Seq<DisplayDescription>,
    pub peer_displays: Seq<DisplayDescription>,
    pub local_fingerprint: Seq<u8>,
    pub peer_fingerprint: Seq<u8>,
    pub local_platform: Platform,
    pub peer_platform: Platform,
    pub interface_id: Seq<char>,
}

pub open spec fn rejected(reason: LinkRejectReason, sending: bool) -> LinkActionView {
    LinkActionView::Notify(LinkNotice::SyncRejected { reason, sending })
}

pub open spec fn transport_exit() -> Seq<LinkActionView> {
    seq![LinkActionView::Exit(LinkExit::Disconnected(LinkDisconnect::Transport))]
}

impl LinkView {
    /// Without the transaction that was under way, and what its end takes. Any staged file is always
    /// discarded.
    pub open spec fn unwound(self, reason: LinkRejectReason) -> (LinkView, Seq<LinkActionView>) {
        (
            LinkView { sync: SyncStateView::Idle, abandoned: None, ..self },
            match self.sync {
                SyncStateView::Idle => Seq::empty(),
                SyncStateView::Sending { .. } => seq![rejected(reason, true)],
                SyncStateView::Confirming { .. } => seq![
                    LinkActionView::Discard,
                    rejected(reason, true),
                ],
                SyncStateView::Receiving { .. } => seq![
                    LinkActionView::Discard,
                    rejected(reason, false),
                ],
            },
        )
    }

    /// Unwound, and then over.
    pub open spec fn ended(self, exit: LinkExit) -> (LinkView, Seq<LinkActionView>) {
        let (after, actions) = self.unwound(LinkRejectReason::Cancelled);
        (after, actions.push(LinkActionView::Exit(exit)))
    }

    pub open spec fn deadline(self) -> Option<Duration> {
        match self.sync {
            SyncStateView::Idle => None,
            SyncStateView::Sending { bytes, digest, deadline } => deadline,
            SyncStateView::Confirming { bytes, digest, deadline } => deadline,
            SyncStateView::Receiving { bytes, digest, deadline } => deadline,
        }
    }

    pub open spec fn guarded(self, now: Duration, cancelled: bool) -> (
        LinkView,
        Seq<LinkActionView>,
    ) {
        if cancelled {
            self.ended(LinkExit::Cancelled)
        } else if span(now as nat, self.last_peer as nat) >= LINK_SILENCE_DEADLINE {
            self.ended(LinkExit::Disconnected(LinkDisconnect::Silence))
        } else if self.deadline() matches Some(deadline) && now >= deadline {
            self.unwound(LinkRejectReason::Cancelled)
        } else {
            (self, Seq::empty())
        }
    }

    pub open spec fn proposed(self, bytes: Seq<u8>) -> (LinkView, Seq<LinkActionView>) {
        if bytes.len() == 0 || bytes.len() > MAX_LAYOUT_PAYLOAD_BYTES {
            (self, seq![rejected(LinkRejectReason::Invalid, true)])
        } else if !(self.sync is Idle) {
            (self, seq![rejected(LinkRejectReason::Busy, true)])
        } else {
            (
                LinkView {
                    sync: SyncStateView::Sending { bytes, digest: sha256(bytes), deadline: None },
                    ..self
                },
                seq![
                    LinkActionView::Notify(LinkNotice::SyncStarted { sending: true }),
                    LinkActionView::Write(payload_frame(LinkKind::Proposal, self.epoch, bytes)),
                    LinkActionView::StartDeadline,
                ],
            )
        }
    }

    /// Takes up the peer's proposal.
    pub open spec fn staging_received(self, frame: LinkFrameView) -> LinkView {
        LinkView {
            persisting: Some(
                PersistingView {
                    step: PersistStep::StageReceived,
                    bytes: frame.payload,
                    digest: frame.digest,
                },
            ),
            ..self
        }
    }

    pub open spec fn on_proposal(self, frame: LinkFrameView) -> (LinkView, Seq<LinkActionView>) {
        let taken = seq![
            LinkActionView::Notify(LinkNotice::SyncStarted { sending: false }),
            LinkActionView::Stage(frame.payload),
        ];
        let busy = seq![
            LinkActionView::Write(reject_frame(self.epoch, frame.digest, LinkRejectReason::Busy)),
        ];
        match self.sync {
            SyncStateView::Receiving { .. } | SyncStateView::Confirming { .. } => (self, busy),
            SyncStateView::Sending { bytes, digest, deadline } => if precedes(
                self.local_device,
                self.peer_device,
            ) {
                (self, busy)
            } else {
                (
                    LinkView {
                        sync: SyncStateView::Idle,
                        abandoned: Some(digest),
                        ..self
                    }.staging_received(frame),
                    seq![rejected(LinkRejectReason::Busy, true)] + taken,
                )
            },
            SyncStateView::Idle => (self.staging_received(frame), taken),
        }
    }

    pub open spec fn on_acknowledgement(self, frame: LinkFrameView) -> (
        LinkView,
        Seq<LinkActionView>,
    ) {
        match self.sync {
            SyncStateView::Sending { bytes, digest, deadline } => if frame.digest == digest {
                (
                    LinkView {
                        sync: SyncStateView::Idle,
                        persisting: Some(
                            PersistingView { step: PersistStep::StageSent, bytes, digest },
                        ),
                        ..self
                    },
                    seq![LinkActionView::Stage(bytes)],
                )
            } else {
                (self, transport_exit())
            },
            _ => (self, transport_exit()),
        }
    }

    pub open spec fn on_completion(self, frame: LinkFrameView) -> (LinkView, Seq<LinkActionView>) {
        match self.sync {
            SyncStateView::Receiving { bytes, digest, deadline } => if frame.digest == digest {
                (
                    LinkView {
                        sync: SyncStateView::Idle,
                        persisting: Some(
                            PersistingView { step: PersistStep::CommitReceived, bytes, digest },
                        ),
                        ..self
                    },
                    seq![LinkActionView::Commit(bytes)],
                )
            } else {
                (self, transport_exit())
            },
            _ => (self, transport_exit()),
        }
    }

    pub open spec fn on_confirmation(self, frame: LinkFrameView) -> (
        LinkView,
        Seq<LinkActionView>,
    ) {
        match self.sync {
            SyncStateView::Confirming { bytes, digest, deadline } => if frame.digest == digest {
                (
                    LinkView {
                        sync: SyncStateView::Idle,
                        persisting: Some(
                            PersistingView { step: PersistStep::CommitSent, bytes, digest },
                        ),
                        ..self
                    },
                    seq![LinkActionView::Commit(bytes)],
                )
            } else {
                (self, transport_exit())
            },
            _ => (self, transport_exit()),
        }
    }

    pub open spec fn on_rejection(self, frame: LinkFrameView) -> (LinkView, Seq<LinkActionView>) {
        let idle = LinkView { sync: SyncStateView::Idle, ..self };
        match frame.reason {
            None => (self, transport_exit()),
            Some(reason) => if self.abandoned == Some(frame.digest) {
                (LinkView { abandoned: None, ..self }, Seq::empty())
            } else if self.sync matches SyncStateView::Sending { bytes, digest, deadline } && digest
                == frame.digest {
                (idle, seq![rejected(reason, true)])
            } else if self.sync matches SyncStateView::Confirming { bytes, digest, deadline }
                && digest == frame.digest {
                (idle, seq![LinkActionView::Discard, rejected(reason, true)])
            } else if self.sync matches SyncStateView::Receiving { bytes, digest, deadline }
                && digest == frame.digest {
                (idle, seq![LinkActionView::Discard, rejected(reason, false)])
            } else if self.committed == Some(frame.digest) {
                (LinkView { committed: None, ..self }, seq![rejected(reason, false)])
            } else {
                (self, Seq::empty())
            },
        }
    }

    pub open spec fn on_frame(self, frame: LinkFrameView) -> (LinkView, Seq<LinkActionView>) {
        if frame.epoch != self.epoch || frame.sequence != self.expected_sequence
            || self.expected_sequence == u64::MAX {
            (self, transport_exit())
        } else {
            let taken = LinkView {
                expected_sequence: (self.expected_sequence + 1) as u64,
                ..self
            };
            match frame.kind {
                LinkKind::Heartbeat => (taken, Seq::empty()),
                LinkKind::Topology => (
                    taken,
                    seq![LinkActionView::DecodeTopology(frame.payload)],
                ),
                LinkKind::Proposal => taken.on_proposal(frame),
                LinkKind::Ack => taken.on_acknowledgement(frame),
                LinkKind::Complete => taken.on_completion(frame),
                LinkKind::Committed => taken.on_confirmation(frame),
                LinkKind::Reject => taken.on_rejection(frame),
                LinkKind::Arranging => (
                    taken,
                    seq![
                        LinkActionView::Notify(
                            LinkNotice::PeerArranging { arranging: frame.payload[0] == 1 },
                        ),
                    ],
                ),
                LinkKind::Bye => taken.ended(LinkExit::Disconnected(LinkDisconnect::PeerClosed)),
            }
        }
    }

    /// After a shared-file step that failed: discard, tell the peer, tell the owner.
    pub open spec fn persist_failed(
        self,
        digest: Seq<u8>,
        reason: LinkRejectReason,
        sending: bool,
    ) -> Seq<LinkActionView> {
        seq![
            LinkActionView::Discard,
            LinkActionView::Write(reject_frame(self.epoch, digest, reason)),
            rejected(reason, sending),
        ]
    }

    pub open spec fn persisted(self, result: Result<(), LinkRejectReason>) -> (
        LinkView,
        Seq<LinkActionView>,
    ) {
        let done = LinkView { persisting: None, ..self };
        match self.persisting {
            None => (self, Seq::empty()),
            Some(work) => match (work.step, result) {
                (PersistStep::StageReceived, Ok(())) => (
                    LinkView {
                        sync: SyncStateView::Receiving {
                            bytes: work.bytes,
                            digest: work.digest,
                            deadline: None,
                        },
                        ..done
                    },
                    seq![
                        LinkActionView::Write(digest_frame(LinkKind::Ack, self.epoch, work.digest)),
                        LinkActionView::StartDeadline,
                    ],
                ),
                (PersistStep::StageSent, Ok(())) => (
                    LinkView {
                        sync: SyncStateView::Confirming {
                            bytes: work.bytes,
                            digest: work.digest,
                            deadline: None,
                        },
                        ..done
                    },
                    seq![
                        LinkActionView::Write(
                            digest_frame(LinkKind::Complete, self.epoch, work.digest),
                        ),
                        LinkActionView::StartDeadline,
                    ],
                ),
                (PersistStep::CommitReceived, Ok(())) => (
                    LinkView { committed: Some(work.digest), ..done },
                    seq![
                        LinkActionView::Write(
                            digest_frame(LinkKind::Committed, self.epoch, work.digest),
                        ),
                        LinkActionView::Completed { bytes: work.bytes, sending: false },
                    ],
                ),
                (PersistStep::CommitSent, Ok(())) => (
                    done,
                    seq![LinkActionView::Completed { bytes: work.bytes, sending: true }],
                ),
                (step, Err(reason)) => (
                    done,
                    self.persist_failed(
                        work.digest,
                        reason,
                        step == PersistStep::StageSent || step == PersistStep::CommitSent,
                    ),
                ),
            },
        }
    }
}

/// One established connection: framing state, the shared peer facts, and the sync transaction.
pub struct Link {
    epoch: SessionEpoch,
    next_sequence: u64,
    expected_sequence: u64,
    last_peer: Duration,
    sync: SyncState,
    persisting: Option<Persisting>,
    abandoned: Option<[u8; 32]>,
    committed: Option<[u8; 32]>,
    /// Outlives this connection and opens the next one.
    arranging: bool,
    inspection: InspectedPeer,
}

pub open spec fn digest_view(digest: Option<[u8; 32]>) -> Option<Seq<u8>> {
    match digest {
        Some(bytes) => Some(bytes@),
        None => None,
    }
}

impl View for Link {
    type V = LinkView;

    closed spec fn view(&self) -> LinkView {
        LinkView {
            epoch: self.epoch,
            next_sequence: self.next_sequence,
            expected_sequence: self.expected_sequence,
            last_peer: self.last_peer,
            sync: self.sync@,
            persisting: match self.persisting {
                Some(work) => Some(work@),
                None => None,
            },
            abandoned: digest_view(self.abandoned),
            committed: digest_view(self.committed),
            arranging: self.arranging,
            local_device: self.inspection.local_device.0@,
            peer_device: self.inspection.peer_device.0@,
            local_displays: self.inspection.local_displays@,
            peer_displays: self.inspection.peer_displays@,
            local_fingerprint: self.inspection.local_fingerprint@,
            peer_fingerprint: self.inspection.peer_fingerprint@,
            local_platform: self.inspection.local_platform,
            peer_platform: self.inspection.peer_platform,
            interface_id: self.inspection.interface_id@,
        }
    }
}

fn is_digest(known: &Option<[u8; 32]>, digest: &[u8; 32]) -> (same: bool)
    ensures
        same == (digest_view(*known) == Some(digest@)),
{
    match known {
        Some(bytes) => same_bytes(bytes, digest),
        None => false,
    }
}

impl Link {
    pub fn new(
        epoch: SessionEpoch,
        inspection: InspectedPeer,
        arranging: bool,
        now: Duration,
    ) -> (link: Link)
        ensures
            link@ == (LinkView {
                epoch,
                next_sequence: LINK_START_SEQUENCE,
                expected_sequence: LINK_START_SEQUENCE,
                last_peer: now,
                sync: SyncStateView::Idle,
                persisting: None,
                abandoned: None,
                committed: None,
                arranging,
                local_device: inspection.local_device.0@,
                peer_device: inspection.peer_device.0@,
                local_displays: inspection.local_displays@,
                peer_displays: inspection.peer_displays@,
                local_fingerprint: inspection.local_fingerprint@,
                peer_fingerprint: inspection.peer_fingerprint@,
                local_platform: inspection.local_platform,
                peer_platform: inspection.peer_platform,
                interface_id: inspection.interface_id@,
            }),
    {
        Link {
            epoch,
            next_sequence: LINK_START_SEQUENCE,
            expected_sequence: LINK_START_SEQUENCE,
            last_peer: now,
            sync: SyncState::Idle,
            persisting: None,
            abandoned: None,
            committed: None,
            arranging,
            inspection,
        }
    }

    /// What is known of the two computers now.
    pub fn inspection(&self) -> (inspection: &InspectedPeer)
        ensures
            inspection.local_device.0@ == self@.local_device,
            inspection.peer_device.0@ == self@.peer_device,
            inspection.local_displays@ == self@.local_displays,
            inspection.peer_displays@ == self@.peer_displays,
            inspection.local_fingerprint@ == self@.local_fingerprint,
            inspection.peer_fingerprint@ == self@.peer_fingerprint,
            inspection.local_platform == self@.local_platform,
            inspection.peer_platform == self@.peer_platform,
            inspection.interface_id@ == self@.interface_id,
    {
        &self.inspection
    }

    /// Whether this computer's user is arranging displays.
    pub fn is_arranging(&self) -> (arranging: bool)
        ensures
            arranging == self@.arranging,
    {
        self.arranging
    }

    /// What every connection opens with: the peer decides nothing from silence.
    pub fn publish_arranging(&self) -> (frame: LinkFrame)
        ensures
            frame@ == payload_frame(
                LinkKind::Arranging,
                self@.epoch,
                seq![arranging_byte(self@.arranging)],
            ),
    {
        let mut payload: Vec<u8> = Vec::new();
        payload.push(arranging_payload(self.arranging));
        assert(payload@ =~= seq![arranging_byte(self@.arranging)]);
        LinkFrame::with_payload(LinkKind::Arranging, self.epoch, payload)
    }

    /// This computer's user started or stopped arranging displays; the peer is told of a change.
    pub fn arrange(&mut self, arranging: bool) -> (actions: Vec<LinkAction>)
        ensures
            final(self)@ == (LinkView { arranging, ..old(self)@ }),
            action_views(actions@) == (if arranging == old(self)@.arranging {
                Seq::<LinkActionView>::empty()
            } else {
                seq![
                    LinkActionView::Write(
                        payload_frame(
                            LinkKind::Arranging,
                            old(self)@.epoch,
                            seq![arranging_byte(arranging)],
                        ),
                    ),
                ]
            }),
    {
        let mut actions: Vec<LinkAction> = Vec::new();
        if self.arranging != arranging {
            self.arranging = arranging;
            actions.push(LinkAction::Write(self.publish_arranging()));
        }
        assert(action_views(actions@) =~= (if arranging == old(self)@.arranging {
            Seq::<LinkActionView>::empty()
        } else {
            seq![
                LinkActionView::Write(
                    payload_frame(
                        LinkKind::Arranging,
                        old(self)@.epoch,
                        seq![arranging_byte(arranging)],
                    ),
                ),
            ]
        }));
        actions
    }

    /// The peer was heard.
    pub fn heard(&mut self, now: Duration)
        ensures
            final(self)@ == (LinkView { last_peer: now, ..old(self)@ }),
    {
        self.last_peer = now;
    }

    /// The wait for the peer's next frame of a transaction begins.
    pub fn start_deadline(&mut self, now: Duration)
        requires
            now + LINK_ACK_DEADLINE <= u128::MAX,
        ensures
            final(self)@ == (LinkView {
                sync: match old(self)@.sync {
                    SyncStateView::Idle => SyncStateView::Idle,
                    SyncStateView::Sending { bytes, digest, deadline } => SyncStateView::Sending {
                        bytes,
                        digest,
                        deadline: Some((now + LINK_ACK_DEADLINE) as u128),
                    },
                    SyncStateView::Confirming { bytes, digest, deadline } =>
                        SyncStateView::Confirming {
                        bytes,
                        digest,
                        deadline: Some((now + LINK_ACK_DEADLINE) as u128),
                    },
                    SyncStateView::Receiving { bytes, digest, deadline } =>
                        SyncStateView::Receiving {
                        bytes,
                        digest,
                        deadline: Some((now + LINK_ACK_DEADLINE) as u128),
                    },
                },
                ..old(self)@
            }),
    {
        let until: Option<Duration> = Some(now + LINK_ACK_DEADLINE);
        let state = self.take_sync();
        self.sync = match state {
            SyncState::Idle => SyncState::Idle,
            SyncState::Sending { bytes, digest, deadline } => SyncState::Sending {
                bytes,
                digest,
                deadline: until,
            },
            SyncState::Confirming { bytes, digest, deadline } => SyncState::Confirming {
                bytes,
                digest,
                deadline: until,
            },
            SyncState::Receiving { bytes, digest, deadline } => SyncState::Receiving {
                bytes,
                digest,
                deadline: until,
            },
        };
    }

    fn take_sync(&mut self) -> (state: SyncState)
        ensures
            state@ == old(self)@.sync,
            final(self)@ == (LinkView { sync: SyncStateView::Idle, ..old(self)@ }),
    {
        let mut state = SyncState::Idle;
        std::mem::swap(&mut state, &mut self.sync);
        state
    }

    /// Looks after cancellation, the peer's silence and the transaction's deadline.
    pub fn guard(&mut self, now: Duration, cancelled: bool) -> (actions: Vec<LinkAction>)
        ensures
            (final(self)@, action_views(actions@)) == old(self)@.guarded(now, cancelled),
    {
        if cancelled {
            return self.end(LinkExit::Cancelled);
        }
        if now >= self.last_peer && now - self.last_peer >= LINK_SILENCE_DEADLINE {
            return self.end(LinkExit::Disconnected(LinkDisconnect::Silence));
        }
        let deadline: Option<Duration> = match &self.sync {
            SyncState::Idle => None,
            SyncState::Sending { bytes, digest, deadline } => *deadline,
            SyncState::Confirming { bytes, digest, deadline } => *deadline,
            SyncState::Receiving { bytes, digest, deadline } => *deadline,
        };
        let expired = match deadline {
            Some(deadline) => now >= deadline,
            None => false,
        };
        if expired {
            return self.close_transaction(LinkRejectReason::Cancelled);
        }
        let actions: Vec<LinkAction> = Vec::new();
        assert(action_views(actions@) =~= Seq::empty());
        actions
    }

    /// The owner proposes a layout.
    pub fn propose(&mut self, bytes: Vec<u8>) -> (actions: Vec<LinkAction>)
        ensures
            (final(self)@, action_views(actions@)) == old(self)@.proposed(bytes@),
    {
        let mut actions: Vec<LinkAction> = Vec::new();
        if bytes.is_empty() || bytes.len() > MAX_LAYOUT_PAYLOAD_BYTES {
            actions.push(
                LinkAction::Notify(
                    LinkNotice::SyncRejected { reason: LinkRejectReason::Invalid, sending: true },
                ),
            );
            assert(action_views(actions@) =~= old(self)@.proposed(bytes@).1);
            return actions;
        }
        let idle = match &self.sync {
            SyncState::Idle => true,
            _ => false,
        };
        if !idle {
            actions.push(
                LinkAction::Notify(
                    LinkNotice::SyncRejected { reason: LinkRejectReason::Busy, sending: true },
                ),
            );
            assert(action_views(actions@) =~= old(self)@.proposed(bytes@).1);
            return actions;
        }
        let ghost proposal = bytes@;
        let digest = digest(bytes.as_slice());
        actions.push(LinkAction::Notify(LinkNotice::SyncStarted { sending: true }));
        actions.push(
            LinkAction::Write(
                LinkFrame::with_payload(
                    LinkKind::Proposal,
                    self.epoch,
                    slice_to_vec(bytes.as_slice()),
                ),
            ),
        );
        actions.push(LinkAction::StartDeadline);
        self.sync = SyncState::Sending { bytes, digest, deadline: None };
        assert(action_views(actions@) =~= old(self)@.proposed(proposal).1);
        actions
    }

    /// Takes one of the peer's frames.
    pub fn handle_frame(&mut self, frame: LinkFrame) -> (actions: Vec<LinkAction>)
        requires
            old(self)@.persisting is None,
            frame@.kind is Arranging ==> frame@.payload.len() > 0,
        ensures
            (final(self)@, action_views(actions@)) == old(self)@.on_frame(frame@),
    {
        if frame.epoch != self.epoch || frame.sequence != self.expected_sequence
            || self.expected_sequence == u64::MAX {
            return exit_actions(LinkExit::Disconnected(LinkDisconnect::Transport));
        }
        self.expected_sequence = self.expected_sequence + 1;
        match frame.kind {
            LinkKind::Heartbeat => {
                let actions: Vec<LinkAction> = Vec::new();
                assert(action_views(actions@) =~= Seq::empty());
                actions
            },
            LinkKind::Topology => {
                let mut actions: Vec<LinkAction> = Vec::new();
                let ghost payload = frame.payload@;
                actions.push(LinkAction::DecodeTopology(frame.payload));
                assert(action_views(actions@) =~= seq![LinkActionView::DecodeTopology(payload)]);
                actions
            },
            LinkKind::Proposal => self.accept_proposal(frame),
            LinkKind::Ack => self.accept_acknowledgement(&frame),
            LinkKind::Complete => self.accept_completion(&frame),
            LinkKind::Committed => self.accept_confirmation(&frame),
            LinkKind::Reject => self.accept_rejection(&frame),
            LinkKind::Arranging => {
                // Validation bounds the payload to one 0-or-1 byte.
                let mut actions: Vec<LinkAction> = Vec::new();
                actions.push(
                    LinkAction::Notify(
                        LinkNotice::PeerArranging { arranging: frame.payload[0] == 1 },
                    ),
                );
                assert(action_views(actions@) =~= seq![
                    LinkActionView::Notify(
                        LinkNotice::PeerArranging { arranging: frame.payload@[0] == 1 },
                    ),
                ]);
                actions
            },
            LinkKind::Bye => self.end(LinkExit::Disconnected(LinkDisconnect::PeerClosed)),
        }
    }

    fn accept_proposal(&mut self, frame: LinkFrame) -> (actions: Vec<LinkAction>)
        requires
            old(self)@.persisting is None,
        ensures
            (final(self)@, action_views(actions@)) == old(self)@.on_proposal(frame@),
    {
        let mut actions: Vec<LinkAction> = Vec::new();
        let ghost before = self@;
        let lost: Option<[u8; 32]> = match &self.sync {
            SyncState::Idle => None,
            SyncState::Sending { bytes, digest, deadline } => {
                if local_proposal_wins(self.inspection.local_device, self.inspection.peer_device) {
                    return self.busy(frame.digest);
                }
                Some(*digest)
            },
            // One transaction at a time; the staged file of the transaction in flight is untouched.
            SyncState::Receiving { bytes, digest, deadline } => return self.busy(frame.digest),
            SyncState::Confirming { bytes, digest, deadline } => return self.busy(frame.digest),
        };
        if lost.is_some() {
            self.sync = SyncState::Idle;
            self.abandoned = lost;
            actions.push(
                LinkAction::Notify(
                    LinkNotice::SyncRejected { reason: LinkRejectReason::Busy, sending: true },
                ),
            );
        }
        let ghost payload = frame.payload@;
        let ghost view = frame@;
        actions.push(LinkAction::Notify(LinkNotice::SyncStarted { sending: false }));
        actions.push(LinkAction::Stage(slice_to_vec(frame.payload.as_slice())));
        self.persisting = Some(
            Persisting {
                step: PersistStep::StageReceived,
                bytes: frame.payload,
                digest: frame.digest,
            },
        );
        assert(action_views(actions@) =~= before.on_proposal(view).1);
        assert(self@ =~= before.on_proposal(view).0);
        actions
    }

    /// Refuses a proposal while another transaction is under way.
    fn busy(&self, digest: [u8; 32]) -> (actions: Vec<LinkAction>)
        ensures
            action_views(actions@) == seq![
                LinkActionView::Write(
                    reject_frame(self@.epoch, digest@, LinkRejectReason::Busy),
                ),
            ],
    {
        let mut actions: Vec<LinkAction> = Vec::new();
        actions.push(
            LinkAction::Write(LinkFrame::rejection(self.epoch, digest, LinkRejectReason::Busy)),
        );
        assert(action_views(actions@) =~= seq![
            LinkActionView::Write(reject_frame(self@.epoch, digest@, LinkRejectReason::Busy)),
        ]);
        actions
    }

    fn accept_acknowledgement(&mut self, frame: &LinkFrame) -> (actions: Vec<LinkAction>)
        requires
            old(self)@.persisting is None,
        ensures
            (final(self)@, action_views(actions@)) == old(self)@.on_acknowledgement(frame@),
    {
        let matching = match &self.sync {
            SyncState::Sending { bytes, digest, deadline } => same_bytes(&frame.digest, digest),
            _ => false,
        };
        if !matching {
            return exit_actions(LinkExit::Disconnected(LinkDisconnect::Transport));
        }
        // The sender only stages here: it commits on the Committed that answers its Complete.
        match self.take_sync() {
            SyncState::Sending { bytes, digest, deadline } => self.persist(
                PersistStep::StageSent,
                bytes,
                digest,
            ),
            _ => exit_actions(LinkExit::Disconnected(LinkDisconnect::Transport)),
        }
    }

    fn accept_completion(&mut self, frame: &LinkFrame) -> (actions: Vec<LinkAction>)
        requires
            old(self)@.persisting is None,
        ensures
            (final(self)@, action_views(actions@)) == old(self)@.on_completion(frame@),
    {
        let matching = match &self.sync {
            SyncState::Receiving { bytes, digest, deadline } => same_bytes(&frame.digest, digest),
            _ => false,
        };
        if !matching {
            return exit_actions(LinkExit::Disconnected(LinkDisconnect::Transport));
        }
        match self.take_sync() {
            SyncState::Receiving { bytes, digest, deadline } => self.persist(
                PersistStep::CommitReceived,
                bytes,
                digest,
            ),
            _ => exit_actions(LinkExit::Disconnected(LinkDisconnect::Transport)),
        }
    }

    /// The peer has committed, so the sender's own staged file can be renamed into place.
    fn accept_confirmation(&mut self, frame: &LinkFrame) -> (actions: Vec<LinkAction>)
        requires
            old(self)@.persisting is None,
        ensures
            (final(self)@, action_views(actions@)) == old(self)@.on_confirmation(frame@),
    {
        let matching = match &self.sync {
            SyncState::Confirming { bytes, digest, deadline } => same_bytes(&frame.digest, digest),
            _ => false,
        };
        if !matching {
            return exit_actions(LinkExit::Disconnected(LinkDisconnect::Transport));
        }
        match self.take_sync() {
            SyncState::Confirming { bytes, digest, deadline } => self.persist(
                PersistStep::CommitSent,
                bytes,
                digest,
            ),
            _ => exit_actions(LinkExit::Disconnected(LinkDisconnect::Transport)),
        }
    }

    /// Begins a shared-file step.
    fn persist(&mut self, step: PersistStep, bytes: Vec<u8>, digest: [u8; 32]) -> (actions: Vec<
        LinkAction,
    >)
        ensures
            final(self)@ == (LinkView {
                persisting: Some(PersistingView { step, bytes: bytes@, digest: digest@ }),
                ..old(self)@
            }),
            action_views(actions@) == (if step == PersistStep::StageSent || step
                == PersistStep::StageReceived {
                seq![LinkActionView::Stage(bytes@)]
            } else {
                seq![LinkActionView::Commit(bytes@)]
            }),
    {
        let mut actions: Vec<LinkAction> = Vec::new();
        let copy = slice_to_vec(bytes.as_slice());
        let ghost content = bytes@;
        let stages = match step {
            PersistStep::StageSent | PersistStep::StageReceived => true,
            _ => false,
        };
        if stages {
            actions.push(LinkAction::Stage(copy));
        } else {
            actions.push(LinkAction::Commit(copy));
        }
        self.persisting = Some(Persisting { step, bytes, digest });
        assert(action_views(actions@) =~= (if stages {
            seq![LinkActionView::Stage(content)]
        } else {
            seq![LinkActionView::Commit(content)]
        }));
        actions
    }

    fn accept_rejection(&mut self, frame: &LinkFrame) -> (actions: Vec<LinkAction>)
        ensures
            (final(self)@, action_views(actions@)) == old(self)@.on_rejection(frame@),
    {
        let mut actions: Vec<LinkAction> = Vec::new();
        let reason = match frame.reason {
            Some(reason) => reason,
            None => return exit_actions(LinkExit::Disconnected(LinkDisconnect::Transport)),
        };
        if is_digest(&self.abandoned, &frame.digest) {
            self.abandoned = None;
            assert(action_views(actions@) =~= Seq::empty());
            return actions;
        }
        // Whether the transaction under way is the rejected one, whether it staged, whose it is.
        let (matching, staged, sending) = match &self.sync {
            SyncState::Idle => (false, false, false),
            SyncState::Sending { bytes, digest, deadline } => (
                same_bytes(digest, &frame.digest),
                false,
                true,
            ),
            SyncState::Confirming { bytes, digest, deadline } => (
                same_bytes(digest, &frame.digest),
                true,
                true,
            ),
            SyncState::Receiving { bytes, digest, deadline } => (
                same_bytes(digest, &frame.digest),
                true,
                false,
            ),
        };
        if matching {
            self.sync = SyncState::Idle;
            if staged {
                actions.push(LinkAction::Discard);
            }
            actions.push(LinkAction::Notify(LinkNotice::SyncRejected { reason, sending }));
            assert(action_views(actions@) =~= old(self)@.on_rejection(frame@).1);
            return actions;
        }
        if is_digest(&self.committed, &frame.digest) {
            // This computer committed what the peer then could not, so it must stop reporting the
            // layout as applied on both.
            self.committed = None;
            actions.push(LinkAction::Notify(LinkNotice::SyncRejected { reason, sending: false }));
        }
        // Else the transaction is already unwound locally.
        assert(action_views(actions@) =~= old(self)@.on_rejection(frame@).1);
        actions
    }

    /// What came of a shared-file step.
    pub fn persisted(&mut self, result: Result<(), LinkRejectReason>) -> (actions: Vec<LinkAction>)
        ensures
            (final(self)@, action_views(actions@)) == old(self)@.persisted(result),
    {
        let mut actions: Vec<LinkAction> = Vec::new();
        let ghost before = self@;
        let mut work: Option<Persisting> = None;
        std::mem::swap(&mut work, &mut self.persisting);
        let Persisting { step, bytes, digest } = match work {
            Some(work) => work,
            None => {
                assert(action_views(actions@) =~= Seq::empty());
                return actions;
            },
        };
        match result {
            Err(reason) => {
                let sending = match step {
                    PersistStep::StageSent | PersistStep::CommitSent => true,
                    _ => false,
                };
                actions.push(LinkAction::Discard);
                actions.push(LinkAction::Write(LinkFrame::rejection(self.epoch, digest, reason)));
                actions.push(LinkAction::Notify(LinkNotice::SyncRejected { reason, sending }));
            },
            Ok(()) => match step {
                PersistStep::StageReceived => {
                    actions.push(
                        LinkAction::Write(
                            LinkFrame::with_digest(LinkKind::Ack, self.epoch, digest),
                        ),
                    );
                    actions.push(LinkAction::StartDeadline);
                    self.sync = SyncState::Receiving { bytes, digest, deadline: None };
                },
                PersistStep::StageSent => {
                    actions.push(
                        LinkAction::Write(
                            LinkFrame::with_digest(LinkKind::Complete, self.epoch, digest),
                        ),
                    );
                    actions.push(LinkAction::StartDeadline);
                    self.sync = SyncState::Confirming { bytes, digest, deadline: None };
                },
                PersistStep::CommitReceived => {
                    self.committed = Some(digest);
                    actions.push(
                        LinkAction::Write(
                            LinkFrame::with_digest(LinkKind::Committed, self.epoch, digest),
                        ),
                    );
                    actions.push(LinkAction::Completed { bytes, sending: false });
                },
                PersistStep::CommitSent => {
                    actions.push(LinkAction::Completed { bytes, sending: true });
                },
            },
        }
        assert(action_views(actions@) =~= before.persisted(result).1);
        assert(self@ =~= before.persisted(result).0);
        actions
    }

    /// Takes the peer's displays as the protocol decoded them.
    pub fn accept_peer_topology(&mut self, decoded: Option<DecodedTopology>) -> (actions: Vec<
        LinkAction,
    >)
        ensures
            match link_topology(decoded, old(self)@.epoch) {
                None => final(self)@ == old(self)@ && action_views(actions@) == transport_exit(),
                Some(displays) => if same_geometries(displays, old(self)@.peer_displays) {
                    final(self)@ == old(self)@ && action_views(actions@) == Seq::<
                        LinkActionView,
                    >::empty()
                } else {
                    final(self)@ == (LinkView { peer_displays: displays, ..old(self)@ })
                        && action_views(actions@) == seq![
                        LinkActionView::Notify(LinkNotice::TopologyChanged),
                    ]
                },
            },
    {
        let topology = match decode_topology(decoded, self.epoch) {
            Ok(topology) => topology,
            Err(reason) => return exit_actions(LinkExit::Disconnected(reason)),
        };
        let mut actions: Vec<LinkAction> = Vec::new();
        if topology.same_geometry(&self.inspection.peer_displays) {
            assert(action_views(actions@) =~= Seq::empty());
            return actions;
        }
        self.inspection.peer_displays = topology;
        actions.push(LinkAction::Notify(LinkNotice::TopologyChanged));
        assert(action_views(actions@) =~= seq![
            LinkActionView::Notify(LinkNotice::TopologyChanged),
        ]);
        actions
    }

    /// Whether freshly read local displays are to be told to the peer. A read that failed must not
    /// drop a healthy link.
    pub fn has_new_displays(&self, current: Option<&DisplayTopology>) -> (changed: bool)
        ensures
            changed == (current matches Some(read) && !same_geometries(
                read@,
                self@.local_displays,
            )),
    {
        match current {
            Some(read) => !read.same_geometry(&self.inspection.local_displays),
            None => false,
        }
    }

    /// Tells the peer of changed local displays, once the protocol has encoded them.
    pub fn publish_local_topology(&mut self, current: DisplayTopology, encoded: Option<Vec<u8>>) -> (actions:
        Vec<LinkAction>)
        ensures
            match encoded {
                None => final(self)@ == old(self)@ && action_views(actions@) == transport_exit(),
                Some(payload) => final(self)@ == (LinkView {
                    local_displays: current@,
                    ..old(self)@
                }) && action_views(actions@) == seq![
                    LinkActionView::Write(
                        payload_frame(LinkKind::Topology, old(self)@.epoch, payload@),
                    ),
                    LinkActionView::Notify(LinkNotice::TopologyChanged),
                ],
            },
    {
        let payload = match encoded {
            Some(payload) => payload,
            None => return exit_actions(LinkExit::Disconnected(LinkDisconnect::Transport)),
        };
        let ghost content = payload@;
        self.inspection.local_displays = current;
        let mut actions: Vec<LinkAction> = Vec::new();
        actions.push(
            LinkAction::Write(LinkFrame::with_payload(LinkKind::Topology, self.epoch, payload)),
        );
        actions.push(LinkAction::Notify(LinkNotice::TopologyChanged));
        assert(action_views(actions@) =~= seq![
            LinkActionView::Write(payload_frame(LinkKind::Topology, old(self)@.epoch, content)),
            LinkActionView::Notify(LinkNotice::TopologyChanged),
        ]);
        actions
    }

    /// Unwinds an unfinished transaction. Any staged file is always discarded.
    pub fn close_transaction(&mut self, reason: LinkRejectReason) -> (actions: Vec<LinkAction>)
        ensures
            (final(self)@, action_views(actions@)) == old(self)@.unwound(reason),
    {
        let mut actions: Vec<LinkAction> = Vec::new();
        let ghost before = self@;
        self.abandoned = None;
        match self.take_sync() {
            SyncState::Idle => {},
            SyncState::Sending { bytes, digest, deadline } => {
                actions.push(LinkAction::Notify(LinkNotice::SyncRejected { reason, sending: true }));
            },
            SyncState::Confirming { bytes, digest, deadline } => {
                actions.push(LinkAction::Discard);
                actions.push(LinkAction::Notify(LinkNotice::SyncRejected { reason, sending: true }));
            },
            SyncState::Receiving { bytes, digest, deadline } => {
                actions.push(LinkAction::Discard);
                actions.push(
                    LinkAction::Notify(LinkNotice::SyncRejected { reason, sending: false }),
                );
            },
        }
        assert(action_views(actions@) =~= before.unwound(reason).1);
        assert(self@ =~= before.unwound(reason).0);
        actions
    }

    /// Unwinds the transaction and ends the link: the peer's stream failed, it left, it is silent,
    /// or the owner cancelled.
    pub fn end(&mut self, exit: LinkExit) -> (actions: Vec<LinkAction>)
        ensures
            (final(self)@, action_views(actions@)) == old(self)@.ended(exit),
    {
        let mut actions = self.close_transaction(LinkRejectReason::Cancelled);
        let ghost unwound = action_views(actions@);
        actions.push(LinkAction::Exit(exit));
        assert(action_views(actions@) =~= unwound.push(LinkActionView::Exit(exit)));
        actions
    }

    /// The goodbye that a closing link writes after it unwound its transaction.
    pub fn farewell(&self) -> (frame: LinkFrame)
        ensures
            frame@ == empty_frame(LinkKind::Bye, self@.epoch),
    {
        LinkFrame::empty(LinkKind::Bye, self.epoch)
    }

    pub fn heartbeat(&self) -> (frame: LinkFrame)
        ensures
            frame@ == empty_frame(LinkKind::Heartbeat, self@.epoch),
    {
        LinkFrame::empty(LinkKind::Heartbeat, self.epoch)
    }

    /// The bytes of the next frame that goes out.
    pub fn write(&mut self, frame: LinkFrame, version: u16) -> (bytes: Result<Vec<u8>, LinkExit>)
        ensures
            ({
                let numbered = LinkFrameView { sequence: old(self)@.next_sequence, ..frame@ };
                if old(self)@.next_sequence == u64::MAX {
                    bytes == Err::<Vec<u8>, _>(LinkExit::Disconnected(LinkDisconnect::Transport))
                        && final(self)@ == old(self)@
                } else {
                    &&& final(self)@ == (LinkView {
                        next_sequence: (old(self)@.next_sequence + 1) as u64,
                        ..old(self)@
                    })
                    &&& match bytes {
                        Ok(encoded) => numbered.is_valid() && encoded@ == numbered.bytes(version),
                        Err(exit) => !numbered.is_valid() && exit == LinkExit::Disconnected(
                            LinkDisconnect::Transport,
                        ),
                    }
                }
            }),
    {
        if self.next_sequence == u64::MAX {
            return Err(LinkExit::Disconnected(LinkDisconnect::Transport));
        }
        let numbered = LinkFrame {
            kind: frame.kind,
            reason: frame.reason,
            epoch: frame.epoch,
            sequence: self.next_sequence,
            digest: frame.digest,
            payload: frame.payload,
        };
        self.next_sequence = self.next_sequence + 1;
        match encode_link_frame(&numbered, version) {
            Ok(bytes) => Ok(bytes),
            Err(reason) => Err(LinkExit::Disconnected(reason)),
        }
    }
}

/// The link ends at once.
fn exit_actions(exit: LinkExit) -> (actions: Vec<LinkAction>)
    ensures
        action_views(actions@) == seq![LinkActionView::Exit(exit)],
{
    let mut actions: Vec<LinkAction> = Vec::new();
    actions.push(LinkAction::Exit(exit));
    assert(action_views(actions@) =~= seq![LinkActionView::Exit(exit)]);
    actions
}

/// Whether a frame that arrives during a write may wait. One payload can exceed the peer's receive
/// window, so reads must continue or two large proposals sent at once would block both writers
/// forever.
pub fn may_wait(pending: usize) -> (result: Result<(), LinkExit>)
    ensures
        result == (if pending >= MAX_PENDING_FRAMES {
            Err::<(), LinkExit>(LinkExit::Disconnected(LinkDisconnect::Transport))
        } else {
            Ok::<(), LinkExit>(())
        }),
{
    if pending >= MAX_PENDING_FRAMES {
        Err(LinkExit::Disconnected(LinkDisconnect::Transport))
    } else {
        Ok(())
    }
}

/// Whether a write that began at `started` goes on.
pub fn guard_write(started: Duration, now: Duration, cancelled: bool) -> (result: Result<
    (),
    LinkExit,
>)
    ensures
        result == (if cancelled {
            Err::<(), LinkExit>(LinkExit::Cancelled)
        } else if span(now as nat, started as nat) >= LINK_SILENCE_DEADLINE {
            Err::<(), LinkExit>(LinkExit::Disconnected(LinkDisconnect::Silence))
        } else {
            Ok::<(), LinkExit>(())
        }),
{
    if cancelled {
        Err(LinkExit::Cancelled)
    } else if now >= started && now - started >= LINK_SILENCE_DEADLINE {
        Err(LinkExit::Disconnected(LinkDisconnect::Silence))
    } else {
        Ok(())
    }
}

/// What the owner of a link asks for.
#[derive(Debug)]
pub enum LinkCommand {
    Propose { bytes: Vec<u8> },
    /// This computer started or stopped arranging displays; the peer is told either way.
    Arranging(bool),
    Close,
}

/// What an attempt to establish the link gave.
#[derive(Clone, Copy, Debug, PartialEq, Eq, Structural)]
pub enum Established {
    Session { purpose: SessionPurpose, next_sequence: u64 },
    Failed(SetupFailure),
    /// The owner closed the link meanwhile, or is gone.
    Closed,
    Cancelled,
}

/// What the link does between connections.
#[derive(Clone, Copy, Debug, PartialEq, Eq, Structural)]
pub enum RunStep {
    Fail(SetupFailure),
    /// Close the endpoint, say so, and end.
    Close,
    /// Say why, wait for the interval, and try again.
    Retry(LinkDisconnect),
    /// Serve the connection.
    Serve,
}

/// What a wait between connections does with an event.
#[derive(Clone, Copy, Debug, PartialEq, Eq, Structural)]
pub enum IdleStep {
    Wait,
    Close,
    Cancel,
    /// No link carries this proposal; the owner must apply again once connected.
    RefuseProposal,
}

/// A link over its connections.
#[derive(Clone, Copy, Debug, PartialEq, Eq, Structural)]
pub struct LinkRun {
    pub attempt: u32,
    /// Survives every reconnect: each fresh connection opens by telling the peer this state, so a
    /// user who was already arranging is never reported as idle after a drop.
    pub arranging: bool,
}

pub open spec fn established_step(established: Established) -> RunStep {
    match established {
        Established::Closed => RunStep::Close,
        Established::Cancelled => RunStep::Fail(SetupFailure::Cancelled),
        Established::Failed(failure) => if is_retried(failure) {
            RunStep::Retry(attempt_class(failure))
        } else {
            RunStep::Fail(failure)
        },
        Established::Session { purpose, next_sequence } => if purpose != SessionPurpose::Setup
            || next_sequence != LINK_START_SEQUENCE {
            RunStep::Retry(LinkDisconnect::Handshake)
        } else {
            RunStep::Serve
        },
    }
}

impl LinkRun {
    pub fn new() -> (run: LinkRun)
        ensures
            run == (LinkRun { attempt: 0, arranging: false }),
    {
        LinkRun { attempt: 0, arranging: false }
    }

    /// Begins an attempt and gives its number.
    pub fn begin(&mut self, cancelled: bool) -> (attempt: Result<u32, SetupFailure>)
        ensures
            final(self).arranging == old(self).arranging,
            if cancelled {
                attempt == Err::<u32, _>(SetupFailure::Cancelled) && *final(self) == *old(self)
            } else {
                attempt == Ok::<u32, SetupFailure>(final(self).attempt) && final(self).attempt == (
                if old(self).attempt == u32::MAX {
                    u32::MAX as int
                } else {
                    old(self).attempt + 1
                })
            },
    {
        if cancelled {
            return Err(SetupFailure::Cancelled);
        }
        if self.attempt < u32::MAX {
            self.attempt = self.attempt + 1;
        }
        Ok(self.attempt)
    }

    /// What follows an attempt. A peer that answered and disagrees will disagree again; only reach
    /// failures retry.
    pub fn established(&mut self, established: Established) -> (step: RunStep)
        ensures
            step == established_step(established),
            *final(self) == (LinkRun {
                attempt: if step == RunStep::Serve {
                    0
                } else {
                    old(self).attempt
                },
                ..*old(self)
            }),
    {
        match established {
            Established::Closed => RunStep::Close,
            Established::Cancelled => RunStep::Fail(SetupFailure::Cancelled),
            Established::Failed(failure) => if is_transient(failure) {
                RunStep::Retry(attempt_reason(failure))
            } else {
                RunStep::Fail(failure)
            },
            Established::Session { purpose, next_sequence } => {
                if purpose != SessionPurpose::Setup || next_sequence != LINK_START_SEQUENCE {
                    return RunStep::Retry(LinkDisconnect::Handshake);
                }
                self.attempt = 0;
                RunStep::Serve
            },
        }
    }

    /// What follows a served connection.
    pub fn ended(&self, exit: LinkExit) -> (step: RunStep)
        ensures
            step == (match exit {
                LinkExit::Closed => RunStep::Close,
                LinkExit::Cancelled => RunStep::Fail(SetupFailure::Cancelled),
                LinkExit::Disconnected(reason) => RunStep::Retry(reason),
            }),
    {
        match exit {
            LinkExit::Closed => RunStep::Close,
            LinkExit::Cancelled => RunStep::Fail(SetupFailure::Cancelled),
            LinkExit::Disconnected(reason) => RunStep::Retry(reason),
        }
    }

    /// What a command does while there is no connection; an owner that is gone closes the link.
    pub fn idle_command(&mut self, command: Option<LinkCommand>) -> (step: IdleStep)
        ensures
            step == (match command {
                None => IdleStep::Close,
                Some(LinkCommand::Close) => IdleStep::Close,
                Some(LinkCommand::Arranging(_)) => IdleStep::Wait,
                Some(LinkCommand::Propose { bytes }) => IdleStep::RefuseProposal,
            }),
            *final(self) == (LinkRun {
                arranging: match command {
                    Some(LinkCommand::Arranging(value)) => value,
                    _ => old(self).arranging,
                },
                ..*old(self)
            }),
    {
        match command {
            None => IdleStep::Close,
            Some(LinkCommand::Close) => IdleStep::Close,
            Some(LinkCommand::Arranging(value)) => {
                self.arranging = value;
                IdleStep::Wait
            },
            Some(LinkCommand::Propose { bytes }) => IdleStep::RefuseProposal,
        }
    }

    /// What the guard does while there is no connection.
    pub fn idle_guard(&self, cancelled: bool) -> (step: IdleStep)
        ensures
            step == (if cancelled {
                IdleStep::Cancel
            } else {
                IdleStep::Wait
            }),
    {
        if cancelled {
            IdleStep::Cancel
        } else {
            IdleStep::Wait
        }
    }
}

/// One computer of a pair with what it did: the layouts it ever staged and committed, by digest, and
/// the frames it ever wrote.
pub struct Side {
    pub link: LinkView,
    pub staged: Set<Seq<u8>>,
    pub committed: Set<Seq<u8>>,
    pub written: Seq<LinkFrameView>,
}

/// What happens to one computer of a pair.
pub enum LinkHappening {
    /// Its owner proposes a layout.
    Propose(Seq<u8>),
    /// It takes a frame.
    Frame(LinkFrameView),
    /// A shared-file step is done.
    Persisted(Result<(), LinkRejectReason>),
    Guard { now: Duration, cancelled: bool },
    End(LinkExit),
}

/// The frames among actions.
pub open spec fn writes(actions: Seq<LinkActionView>) -> Seq<LinkFrameView>
    decreases actions.len(),
{
    if actions.len() == 0 {
        Seq::empty()
    } else {
        let earlier = writes(actions.drop_last());
        match actions.last() {
            LinkActionView::Write(frame) => earlier.push(frame),
            _ => earlier,
        }
    }
}

impl Side {
    /// What the link does.
    pub open spec fn reacted(self, happening: LinkHappening) -> (LinkView, Seq<LinkActionView>) {
        match happening {
            LinkHappening::Propose(bytes) => self.link.proposed(bytes),
            LinkHappening::Frame(frame) => self.link.on_frame(frame),
            LinkHappening::Persisted(result) => self.link.persisted(result),
            LinkHappening::Guard { now, cancelled } => self.link.guarded(now, cancelled),
            LinkHappening::End(exit) => self.link.ended(exit),
        }
    }

    /// The side after something happened to it.
    pub open spec fn after(self, happening: LinkHappening) -> Side {
        let (link, actions) = self.reacted(happening);
        let done = match (happening, self.link.persisting) {
            (LinkHappening::Persisted(Ok(())), Some(work)) => Some(work),
            _ => None,
        };
        Side {
            link,
            staged: match done {
                Some(work) => if work.step == PersistStep::StageReceived || work.step
                    == PersistStep::StageSent {
                    self.staged.insert(work.digest)
                } else {
                    self.staged
                },
                None => self.staged,
            },
            committed: match done {
                Some(work) => if work.step == PersistStep::CommitReceived || work.step
                    == PersistStep::CommitSent {
                    self.committed.insert(work.digest)
                } else {
                    self.committed
                },
                None => self.committed,
            },
            written: self.written + writes(actions),
        }
    }

    /// What every written frame claims of its writer is so.
    pub open spec fn is_honest(self) -> bool {
        forall|i: int| 0 <= i < self.written.len() ==> self.backs(#[trigger] self.written[i])
    }

    pub open spec fn backs(self, frame: LinkFrameView) -> bool {
        &&& frame.kind == LinkKind::Ack || frame.kind == LinkKind::Complete ==>
            self.staged.contains(frame.digest)
        &&& frame.kind == LinkKind::Committed ==> self.committed.contains(frame.digest)
            && self.staged.contains(frame.digest)
    }

    /// Where this side stands in a transaction, the other side stands too.
    pub open spec fn is_matched(self, other: Side) -> bool {
        &&& self.link.sync matches SyncStateView::Receiving { bytes, digest, deadline } ==>
            self.staged.contains(digest)
        &&& self.link.sync matches SyncStateView::Confirming { bytes, digest, deadline } ==>
            self.staged.contains(digest) && other.staged.contains(digest)
        &&& self.link.persisting matches Some(work) ==> match work.step {
            PersistStep::StageReceived => true,
            PersistStep::StageSent => other.staged.contains(work.digest),
            PersistStep::CommitReceived => self.staged.contains(work.digest)
                && other.staged.contains(work.digest),
            PersistStep::CommitSent => self.staged.contains(work.digest) && other.staged.contains(
                work.digest,
            ) && other.committed.contains(work.digest),
        }
        &&& self.committed.subset_of(self.staged)
        &&& self.committed.subset_of(other.staged)
    }

    /// A side can take what happens: a frame only between shared-file steps, and only one that the
    /// other side wrote.
    pub open spec fn allows(self, other: Side, happening: LinkHappening) -> bool {
        match happening {
            LinkHappening::Frame(frame) => self.link.persisting is None && exists|i: int|
                0 <= i < other.written.len() && same_content(#[trigger] other.written[i], frame),
            LinkHappening::Persisted(_) => true,
            _ => self.link.persisting is None,
        }
    }
}

/// Two frames say the same; the number of a frame is given when it goes out.
pub open spec fn same_content(one: LinkFrameView, other: LinkFrameView) -> bool {
    LinkFrameView { sequence: 0, ..one } == LinkFrameView { sequence: 0, ..other }
}

/// Both sides of a pair keep the rule.
pub open spec fn in_step(one: Side, other: Side) -> bool {
    &&& one.is_honest()
    &&& other.is_honest()
    &&& one.is_matched(other)
    &&& other.is_matched(one)
}

proof fn lemma_writes_are_actions(actions: Seq<LinkActionView>)
    ensures
        forall|i: int|
            0 <= i < writes(actions).len() ==> exists|j: int|
                0 <= j < actions.len() && (#[trigger] actions[j]) == LinkActionView::Write(
                    #[trigger] writes(actions)[i],
                ),
    decreases actions.len(),
{
    if actions.len() > 0 {
        lemma_writes_are_actions(actions.drop_last());
        let earlier = writes(actions.drop_last());
        assert forall|i: int| 0 <= i < writes(actions).len() implies exists|j: int|
            0 <= j < actions.len() && (#[trigger] actions[j]) == LinkActionView::Write(
                #[trigger] writes(actions)[i],
            ) by {
            if i < earlier.len() {
                assert(writes(actions)[i] == earlier[i]);
                let j = choose|j: int|
                    0 <= j < actions.drop_last().len() && (#[trigger] actions.drop_last()[j])
                        == LinkActionView::Write(earlier[i]);
                assert(actions[j] == actions.drop_last()[j]);
            } else {
                assert(actions[actions.len() - 1] == LinkActionView::Write(writes(actions)[i]));
            }
        }
    }
}

/// A pair whose links are fresh keeps the rule.
pub proof fn law_a_fresh_pair_is_in_step(one: LinkView, other: LinkView)
    requires
        one.sync is Idle,
        one.persisting is None,
        other.sync is Idle,
        other.persisting is None,
    ensures
        ({
            let first = Side {
                link: one,
                staged: Set::empty(),
                committed: Set::empty(),
                written: Seq::empty(),
            };
            let second = Side { link: other, ..first };
            in_step(first, second)
        }),
{
}

/// A transaction that ends unfinished discards whatever was staged for it, and tells the owner.
pub proof fn law_unfinished_transactions_are_discarded(link: LinkView, reason: LinkRejectReason)
    ensures
        link.unwound(reason).0.sync is Idle,
        (link.sync is Receiving || link.sync is Confirming) ==> link.unwound(reason).1[0]
            == LinkActionView::Discard,
        !(link.sync is Idle) ==> link.unwound(reason).1.last() == rejected(
            reason,
            !(link.sync is Receiving),
        ),
{
}

/// Neither computer commits a layout before the other has staged it. Whatever happens to one side of
/// a pair in step, with frames that the other wrote, the pair stays in step; a sender commits only
/// what the receiver committed before.
pub proof fn law_neither_commits_before_the_other_staged(
    one: Side,
    other: Side,
    happening: LinkHappening,
)
    requires
        in_step(one, other),
        one.allows(other, happening),
    ensures
        in_step(one.after(happening), other),
        one.after(happening).committed.subset_of(other.staged),
        happening == LinkHappening::Persisted(Ok(())) && one.link.persisting is Some
            && one.link.persisting->0.step == PersistStep::CommitSent ==> other.committed.contains(
            one.link.persisting->0.digest,
        ),
{
    let (link, actions) = one.reacted(happening);
    let after = one.after(happening);
    lemma_writes_are_actions(actions);
    assert(after.is_matched(other)) by {
        lemma_after_is_matched(one, other, happening);
    }
    assert forall|i: int| 0 <= i < after.written.len() implies after.backs(
        #[trigger] after.written[i],
    ) by {
        if i < one.written.len() {
            assert(after.written[i] == one.written[i]);
            assert(one.backs(one.written[i]));
        } else {
            let frame = writes(actions)[i - one.written.len()];
            assert(after.written[i] == frame);
            let j = choose|j: int|
                0 <= j < actions.len() && (#[trigger] actions[j]) == LinkActionView::Write(frame);
            lemma_writes_are_backed(one, other, happening, j);
        }
    }
}

proof fn lemma_after_is_matched(one: Side, other: Side, happening: LinkHappening)
    requires
        in_step(one, other),
        one.allows(other, happening),
    ensures
        one.after(happening).is_matched(other),
{
    if let LinkHappening::Frame(frame) = happening {
        let i = choose|i: int|
            0 <= i < other.written.len() && same_content(#[trigger] other.written[i], frame);
        assert(other.backs(other.written[i]));
        assert(other.written[i].kind == frame.kind);
        assert(other.written[i].digest == frame.digest);
    }
}

proof fn lemma_writes_are_backed(one: Side, other: Side, happening: LinkHappening, place: int)
    requires
        in_step(one, other),
        one.allows(other, happening),
        0 <= place < one.reacted(happening).1.len(),
        one.reacted(happening).1[place] is Write,
    ensures
        one.after(happening).backs(one.reacted(happening).1[place]->Write_0),
{
}

/// The frame comes next in the order of the connection.
pub open spec fn comes_next(link: LinkView, frame: LinkFrameView) -> bool {
    &&& frame.epoch == link.epoch
    &&& frame.sequence == link.expected_sequence
    &&& link.expected_sequence < u64::MAX
}

/// Nothing is under way.
pub open spec fn is_free(link: LinkView) -> bool {
    link.sync is Idle && link.persisting is None
}

/// What is under way about a layout, and the order of the frames, aside, two states are the same.
pub open spec fn same_peer(one: LinkView, other: LinkView) -> bool {
    &&& one.epoch == other.epoch
    &&& one.next_sequence == other.next_sequence
    &&& one.last_peer == other.last_peer
    &&& one.arranging == other.arranging
    &&& one.local_device == other.local_device
    &&& one.peer_device == other.peer_device
    &&& one.local_displays == other.local_displays
    &&& one.peer_displays == other.peer_displays
    &&& one.local_fingerprint == other.local_fingerprint
    &&& one.peer_fingerprint == other.peer_fingerprint
    &&& one.local_platform == other.local_platform
    &&& one.peer_platform == other.peer_platform
    &&& one.interface_id == other.interface_id
}

/// A proposal that arrives in order while nothing is under way is always taken up, whatever was
/// committed, given up or arranged before: the owner hears that a sync started, exactly the proposed
/// bytes are asked to be staged, and what is being staged is the peer's.
pub proof fn law_a_free_link_takes_up_every_proposal(link: LinkView, frame: LinkFrameView)
    requires
        is_free(link),
        comes_next(link, frame),
        frame.kind == LinkKind::Proposal,
    ensures
        link.on_frame(frame).1 == seq![
            LinkActionView::Notify(LinkNotice::SyncStarted { sending: false }),
            LinkActionView::Stage(frame.payload),
        ],
        link.on_frame(frame).0.persisting == Some(
            PersistingView {
                step: PersistStep::StageReceived,
                bytes: frame.payload,
                digest: frame.digest,
            },
        ),
        link.on_frame(frame).0.expected_sequence == link.expected_sequence + 1,
        link.on_frame(frame).0.committed == link.committed,
        link.on_frame(frame).0.abandoned == link.abandoned,
{
}

/// A proposal is refused as busy exactly while another one is under way here: one of the peer's own,
/// one of this computer's that the peer has acknowledged, or one of this computer's that wins over
/// the peer's. A refusal names the refused proposal and changes nothing but the order of frames.
pub proof fn law_when_a_proposal_is_refused(link: LinkView, frame: LinkFrameView)
    requires
        comes_next(link, frame),
        frame.kind == LinkKind::Proposal,
    ensures
        ({
            let (after, actions) = link.on_frame(frame);
            let refused = link.sync is Receiving || link.sync is Confirming || link.sync is Sending
                && precedes(link.local_device, link.peer_device);
            &&& refused ==> actions == seq![
                LinkActionView::Write(
                    reject_frame(link.epoch, frame.digest, LinkRejectReason::Busy),
                ),
            ] && after == (LinkView {
                expected_sequence: (link.expected_sequence + 1) as u64,
                ..link
            })
            &&& !refused ==> after.sync is Idle && after.persisting == Some(
                PersistingView {
                    step: PersistStep::StageReceived,
                    bytes: frame.payload,
                    digest: frame.digest,
                },
            ) && actions.last() == LinkActionView::Stage(frame.payload)
            &&& link.sync is Sending && !refused ==> actions[0] == rejected(
                LinkRejectReason::Busy,
                true,
            ) && after.abandoned == Some(link.sync->Sending_digest)
        }),
{
}

/// A frame as it arrives: with the number that comes next.
pub open spec fn arriving(frame: LinkFrameView, link: LinkView) -> LinkFrameView {
    LinkFrameView { sequence: link.expected_sequence, ..frame }
}

/// A layout that one of two free sides proposes is committed by both. With every frame delivered and
/// every shared-file step done, the sender stages and commits what it proposed, the receiver stages
/// and commits the same bytes, both owners hear that the sync began and that it is complete, each
/// side writes its two frames and no other, and both sides are free again.
pub proof fn law_a_proposed_layout_is_committed_by_both(
    sender: LinkView,
    receiver: LinkView,
    bytes: Seq<u8>,
)
    requires
        is_free(sender),
        is_free(receiver),
        sender.epoch == receiver.epoch,
        0 < bytes.len() <= MAX_LAYOUT_PAYLOAD_BYTES,
        sender.expected_sequence + 2 <= u64::MAX,
        receiver.expected_sequence + 2 <= u64::MAX,
    ensures
        ({
            let (sending, proposing) = sender.proposed(bytes);
            let proposal = writes(proposing);
            let (staging, received) = receiver.on_frame(arriving(proposal[0], receiver));
            let (receiving, staged) = staging.persisted(Ok(()));
            let acknowledgement = writes(staged);
            let (own_staging, acknowledged) = sending.on_frame(
                arriving(acknowledgement[0], sending),
            );
            let (confirming, own_staged) = own_staging.persisted(Ok(()));
            let completion = writes(own_staged);
            let (committing, completed) = receiving.on_frame(arriving(completion[0], receiving));
            let (received_all, committed) = committing.persisted(Ok(()));
            let confirmation = writes(committed);
            let (own_committing, confirmed) = confirming.on_frame(
                arriving(confirmation[0], confirming),
            );
            let (sent_all, own_committed) = own_committing.persisted(Ok(()));
            &&& proposal.len() == 1 && acknowledgement.len() == 1 && completion.len() == 1
                && confirmation.len() == 1
            &&& proposing.contains(
                LinkActionView::Notify(LinkNotice::SyncStarted { sending: true }),
            )
            &&& received.contains(
                LinkActionView::Notify(LinkNotice::SyncStarted { sending: false }),
            )
            &&& received.contains(LinkActionView::Stage(bytes))
            &&& acknowledged.contains(LinkActionView::Stage(bytes))
            &&& completed.contains(LinkActionView::Commit(bytes))
            &&& committed.contains(LinkActionView::Completed { bytes, sending: false })
            &&& confirmed.contains(LinkActionView::Commit(bytes))
            &&& own_committed.contains(LinkActionView::Completed { bytes, sending: true })
            &&& is_free(sent_all)
            &&& is_free(received_all)
            &&& received_all.committed == Some(sha256(bytes))
            &&& sent_all.expected_sequence == sender.expected_sequence + 2
            &&& received_all.expected_sequence == receiver.expected_sequence + 2
        }),
{
    reveal_with_fuel(writes, 4);
    let (sending, proposing) = sender.proposed(bytes);
    let started = LinkActionView::Notify(LinkNotice::SyncStarted { sending: true });
    let proposal_frame = payload_frame(LinkKind::Proposal, sender.epoch, bytes);
    assert(proposing.drop_last() =~= seq![started, LinkActionView::Write(proposal_frame)]);
    assert(proposing.drop_last().drop_last() =~= seq![started]);
    assert(proposing.drop_last().drop_last().drop_last() =~= Seq::empty());
    assert(writes(proposing) =~= seq![proposal_frame]);
    assert(proposing[0] == started);
    let (staging, received) = receiver.on_frame(arriving(proposal_frame, receiver));
    assert(received[0] == LinkActionView::Notify(LinkNotice::SyncStarted { sending: false }));
    assert(received[1] == LinkActionView::Stage(bytes));
    let (receiving, staged) = staging.persisted(Ok(()));
    let ack = digest_frame(LinkKind::Ack, receiver.epoch, sha256(bytes));
    assert(staged.drop_last() =~= seq![LinkActionView::Write(ack)]);
    assert(staged.drop_last().drop_last() =~= Seq::empty());
    assert(writes(staged) =~= seq![ack]);
    let (own_staging, acknowledged) = sending.on_frame(arriving(ack, sending));
    assert(acknowledged[0] == LinkActionView::Stage(bytes));
    let (confirming, own_staged) = own_staging.persisted(Ok(()));
    let complete = digest_frame(LinkKind::Complete, sender.epoch, sha256(bytes));
    assert(own_staged.drop_last() =~= seq![LinkActionView::Write(complete)]);
    assert(own_staged.drop_last().drop_last() =~= Seq::empty());
    assert(writes(own_staged) =~= seq![complete]);
    let (committing, completed) = receiving.on_frame(arriving(complete, receiving));
    assert(completed[0] == LinkActionView::Commit(bytes));
    let (received_all, committed) = committing.persisted(Ok(()));
    let done = digest_frame(LinkKind::Committed, receiver.epoch, sha256(bytes));
    assert(committed.drop_last() =~= seq![LinkActionView::Write(done)]);
    assert(committed.drop_last().drop_last() =~= Seq::empty());
    assert(writes(committed) =~= seq![done]);
    assert(committed[1] == (LinkActionView::Completed { bytes, sending: false }));
    let (own_committing, confirmed) = confirming.on_frame(arriving(done, confirming));
    assert(confirmed[0] == LinkActionView::Commit(bytes));
    let (sent_all, own_committed) = own_committing.persisted(Ok(()));
    assert(own_committed[0] == (LinkActionView::Completed { bytes, sending: true }));
}

/// When both sides propose at once, the proposal of the lower device wins on both: its side refuses
/// the other one and goes on sending, the other side gives its own up, tells its owner, and takes
/// the winner's up. The refusal that then reaches the other side is of what it gave up, and stops
/// nothing.
pub proof fn law_crossing_proposals_keep_the_winners(
    winner: LinkView,
    loser: LinkView,
    won: Seq<u8>,
    lost: Seq<u8>,
)
    requires
        winner.sync matches SyncStateView::Sending { bytes, digest, deadline } && bytes == won
            && digest == sha256(won),
        loser.sync matches SyncStateView::Sending { bytes, digest, deadline } && bytes == lost
            && digest == sha256(lost),
        winner.persisting is None,
        loser.persisting is None,
        winner.epoch == loser.epoch,
        winner.local_device == loser.peer_device,
        winner.peer_device == loser.local_device,
        precedes(winner.local_device, loser.local_device),
        winner.expected_sequence < u64::MAX,
        loser.expected_sequence + 2 <= u64::MAX,
    ensures
        ({
            let theirs = payload_frame(LinkKind::Proposal, winner.epoch, lost);
            let ours = payload_frame(LinkKind::Proposal, winner.epoch, won);
            let (kept, refusal) = winner.on_frame(arriving(theirs, winner));
            let (taken, taking) = loser.on_frame(arriving(ours, loser));
            let busy = reject_frame(winner.epoch, sha256(lost), LinkRejectReason::Busy);
            let (receiving, staged) = taken.persisted(Ok(()));
            let (unmoved, nothing) = receiving.on_frame(arriving(busy, receiving));
            &&& kept.sync == winner.sync
            &&& refusal == seq![LinkActionView::Write(busy)]
            &&& taking == seq![
                rejected(LinkRejectReason::Busy, true),
                LinkActionView::Notify(LinkNotice::SyncStarted { sending: false }),
                LinkActionView::Stage(won),
            ]
            &&& staged[0] == LinkActionView::Write(
                digest_frame(LinkKind::Ack, winner.epoch, sha256(won)),
            )
            &&& nothing == Seq::<LinkActionView>::empty()
            &&& unmoved.sync == receiving.sync
            &&& unmoved.abandoned is None
        }),
{
    lemma_precedes_total(winner.local_device, loser.local_device);
}

/// The peer's next frame of a transaction moves it on where it names the layout that is under way,
/// however long the wait was: an acknowledgement has the own proposal staged, a completion has the
/// peer's committed, a confirmation has the own one committed. Out of place, or about another
/// layout, such a frame ends the connection.
pub proof fn law_a_transaction_moves_on(link: LinkView, frame: LinkFrameView)
    requires
        link.persisting is None,
        comes_next(link, frame),
        frame.kind == LinkKind::Ack || frame.kind == LinkKind::Complete || frame.kind
            == LinkKind::Committed,
    ensures
        ({
            let (after, actions) = link.on_frame(frame);
            let expected = match frame.kind {
                LinkKind::Ack => link.sync is Sending && link.sync->Sending_digest == frame.digest,
                LinkKind::Complete => link.sync is Receiving && link.sync->Receiving_digest
                    == frame.digest,
                _ => link.sync is Confirming && link.sync->Confirming_digest == frame.digest,
            };
            &&& !expected ==> actions == seq![
                LinkActionView::Exit(LinkExit::Disconnected(LinkDisconnect::Transport)),
            ] && after.sync == link.sync && after.persisting is None
            &&& expected ==> after.sync is Idle && after.persisting is Some
                && after.persisting->0.digest == frame.digest && actions.len() == 1
            &&& expected && frame.kind == LinkKind::Ack ==> actions[0] == LinkActionView::Stage(
                link.sync->Sending_bytes,
            ) && after.persisting->0.step == PersistStep::StageSent && after.persisting->0.bytes
                == link.sync->Sending_bytes
            &&& expected && frame.kind == LinkKind::Complete ==> actions[0]
                == LinkActionView::Commit(link.sync->Receiving_bytes) && after.persisting->0.step
                == PersistStep::CommitReceived && after.persisting->0.bytes
                == link.sync->Receiving_bytes
            &&& expected && frame.kind == LinkKind::Committed ==> actions[0]
                == LinkActionView::Commit(link.sync->Confirming_bytes) && after.persisting->0.step
                == PersistStep::CommitSent && after.persisting->0.bytes
                == link.sync->Confirming_bytes
        }),
{
}

/// A shared-file step that failed ends the transaction: whatever was staged is discarded, the peer
/// is told which layout failed and why, the owner is told why and whose it was, and the link is free
/// for another.
pub proof fn law_a_failed_step_is_told(link: LinkView, reason: LinkRejectReason)
    requires
        link.persisting is Some,
        link.sync is Idle,
    ensures
        ({
            let work = link.persisting->0;
            let (after, actions) = link.persisted(Err(reason));
            &&& is_free(after)
            &&& after.committed == link.committed
            &&& actions == seq![
                LinkActionView::Discard,
                LinkActionView::Write(reject_frame(link.epoch, work.digest, reason)),
                LinkActionView::Notify(
                    LinkNotice::SyncRejected {
                        reason,
                        sending: work.step == PersistStep::StageSent || work.step
                            == PersistStep::CommitSent,
                    },
                ),
            ]
        }),
{
}

/// A shared-file step that is done is told to the peer, but for the last one, and the wait for the
/// peer's next frame begins where one is owed. A layout counts as complete once it is committed
/// here.
pub proof fn law_a_finished_step_is_told(link: LinkView)
    requires
        link.persisting is Some,
        link.sync is Idle,
    ensures
        ({
            let work = link.persisting->0;
            let (after, actions) = link.persisted(Ok(()));
            let told = |kind: LinkKind|
                LinkActionView::Write(digest_frame(kind, link.epoch, work.digest));
            &&& after.persisting is None
            &&& match work.step {
                PersistStep::StageReceived => actions == seq![
                    told(LinkKind::Ack),
                    LinkActionView::StartDeadline,
                ] && after.sync is Receiving && after.sync->Receiving_bytes == work.bytes
                    && after.sync->Receiving_digest == work.digest,
                PersistStep::StageSent => actions == seq![
                    told(LinkKind::Complete),
                    LinkActionView::StartDeadline,
                ] && after.sync is Confirming && after.sync->Confirming_bytes == work.bytes
                    && after.sync->Confirming_digest == work.digest,
                PersistStep::CommitReceived => actions == seq![
                    told(LinkKind::Committed),
                    LinkActionView::Completed { bytes: work.bytes, sending: false },
                ] && after.sync is Idle && after.committed == Some(work.digest),
                PersistStep::CommitSent => actions == seq![
                    LinkActionView::Completed { bytes: work.bytes, sending: true },
                ] && after.sync is Idle && after.committed == link.committed,
            }
        }),
{
}

/// A refusal of the layout that is under way ends its transaction: what was staged is discarded, and
/// the owner is told the peer's reason. One of a layout that was given up, or of none that is known,
/// is passed over; one of a layout that was committed here as the peer's is told to the owner, once.
pub proof fn law_a_refusal_ends_what_it_names(
    link: LinkView,
    frame: LinkFrameView,
    reason: LinkRejectReason,
)
    requires
        comes_next(link, frame),
        frame.kind == LinkKind::Reject,
        frame.reason == Some(reason),
    ensures
        ({
            let (after, actions) = link.on_frame(frame);
            let given_up = link.abandoned == Some(frame.digest);
            let named = match link.sync {
                SyncStateView::Idle => false,
                SyncStateView::Sending { bytes, digest, deadline } => digest == frame.digest,
                SyncStateView::Confirming { bytes, digest, deadline } => digest == frame.digest,
                SyncStateView::Receiving { bytes, digest, deadline } => digest == frame.digest,
            };
            let told = LinkActionView::Notify(
                LinkNotice::SyncRejected { reason, sending: !(link.sync is Receiving) },
            );
            &&& given_up ==> actions.len() == 0 && after.sync == link.sync && after.abandoned
                is None && after.committed == link.committed
            &&& !given_up && named ==> after.sync is Idle && actions.last() == told && (
            link.sync is Sending ==> actions.len() == 1) && (!(link.sync is Sending)
                ==> actions.len() == 2 && actions[0] == LinkActionView::Discard)
            &&& !given_up && !named ==> after.sync == link.sync
            &&& !given_up && !named && link.committed == Some(frame.digest) ==> after.committed
                is None && actions == seq![
                LinkActionView::Notify(LinkNotice::SyncRejected { reason, sending: false }),
            ]
            &&& !given_up && !named && link.committed != Some(frame.digest) ==> actions.len() == 0
                && after.committed == link.committed
            &&& after.persisting == link.persisting
        }),
{
}

/// A frame out of order, or of another session, ends the connection and changes nothing. One in order
/// is counted, and changes nothing of what is known of the peer.
pub proof fn law_frames_are_taken_in_order(link: LinkView, frame: LinkFrameView)
    ensures
        !comes_next(link, frame) ==> link.on_frame(frame) == (
            link,
            seq![LinkActionView::Exit(LinkExit::Disconnected(LinkDisconnect::Transport))],
        ),
        comes_next(link, frame) ==> link.on_frame(frame).0.expected_sequence
            == link.expected_sequence + 1 && same_peer(link.on_frame(frame).0, link),
{
}

/// A heartbeat does nothing, displays are handed on to be decoded as they came, and a change of the
/// peer's arranging is told to the owner; none of them touches a transaction. A goodbye ends the
/// connection.
pub proof fn law_news_leave_a_transaction_alone(link: LinkView, frame: LinkFrameView)
    requires
        comes_next(link, frame),
    ensures
        ({
            let (after, actions) = link.on_frame(frame);
            &&& frame.kind == LinkKind::Heartbeat ==> actions.len() == 0
            &&& frame.kind == LinkKind::Topology ==> actions == seq![
                LinkActionView::DecodeTopology(frame.payload),
            ]
            &&& frame.kind == LinkKind::Arranging ==> actions == seq![
                LinkActionView::Notify(
                    LinkNotice::PeerArranging { arranging: frame.payload[0] == 1 },
                ),
            ]
            &&& frame.kind == LinkKind::Heartbeat || frame.kind == LinkKind::Topology || frame.kind
                == LinkKind::Arranging ==> after.sync == link.sync && after.persisting
                == link.persisting && after.abandoned == link.abandoned && after.committed
                == link.committed
            &&& frame.kind == LinkKind::Bye ==> after.sync is Idle && actions.last()
                == LinkActionView::Exit(LinkExit::Disconnected(LinkDisconnect::PeerClosed))
        }),
{
}

/// What the peer's arranging is told as is what it was: the byte that a side writes for its state
/// reads as that state.
pub proof fn law_arranging_reads_back(link: LinkView, arranging: bool)
    requires
        link.expected_sequence < u64::MAX,
    ensures
        ({
            let frame = payload_frame(
                LinkKind::Arranging,
                link.epoch,
                seq![arranging_byte(arranging)],
            );
            &&& frame.is_valid()
            &&& link.on_frame(arriving(frame, link)).1 == seq![
                LinkActionView::Notify(LinkNotice::PeerArranging { arranging }),
            ]
        }),
{
}

/// A proposal of the owner is sent whenever no transaction is under way, whole and once; it is
/// refused as invalid exactly where it is empty or too long, and as busy exactly while another one
/// is under way. A refused one changes nothing.
pub proof fn law_which_proposals_are_sent(link: LinkView, bytes: Seq<u8>)
    ensures
        ({
            let (after, actions) = link.proposed(bytes);
            let fits = 0 < bytes.len() <= MAX_LAYOUT_PAYLOAD_BYTES;
            &&& !fits ==> after == link && actions == seq![
                LinkActionView::Notify(
                    LinkNotice::SyncRejected { reason: LinkRejectReason::Invalid, sending: true },
                ),
            ]
            &&& fits && !(link.sync is Idle) ==> after == link && actions == seq![
                LinkActionView::Notify(
                    LinkNotice::SyncRejected { reason: LinkRejectReason::Busy, sending: true },
                ),
            ]
            &&& fits && link.sync is Idle ==> actions.contains(
                LinkActionView::Write(payload_frame(LinkKind::Proposal, link.epoch, bytes)),
            ) && actions.contains(LinkActionView::StartDeadline) && same_peer(after, link)
                && after.committed == link.committed && after.sync is Sending
                && after.sync->Sending_bytes == bytes && after.sync->Sending_digest == sha256(bytes)
        }),
{
    if 0 < bytes.len() <= MAX_LAYOUT_PAYLOAD_BYTES && link.sync is Idle {
        let (after, actions) = link.proposed(bytes);
        assert(actions[1] == LinkActionView::Write(
            payload_frame(LinkKind::Proposal, link.epoch, bytes),
        ));
        assert(actions[2] == LinkActionView::StartDeadline);
    }
}

/// A connection ends when its owner cancels and when the peer was silent for the whole deadline, and
/// otherwise goes on; a transaction whose deadline has come is unwound without ending it. Before any
/// of these nothing changes.
pub proof fn law_when_a_link_is_ended(link: LinkView, now: Duration, cancelled: bool)
    requires
        link.last_peer <= now,
    ensures
        ({
            let (after, actions) = link.guarded(now, cancelled);
            let silent = now - link.last_peer >= LINK_SILENCE_DEADLINE;
            let ends = actions.len() > 0 && actions.last() is Exit;
            let due = match link.sync {
                SyncStateView::Idle => false,
                SyncStateView::Sending { bytes, digest, deadline } => deadline is Some && now
                    >= deadline->0,
                SyncStateView::Confirming { bytes, digest, deadline } => deadline is Some && now
                    >= deadline->0,
                SyncStateView::Receiving { bytes, digest, deadline } => deadline is Some && now
                    >= deadline->0,
            };
            &&& ends <==> cancelled || silent
            &&& cancelled ==> actions.last() == LinkActionView::Exit(LinkExit::Cancelled)
            &&& !cancelled && silent ==> actions.last() == LinkActionView::Exit(
                LinkExit::Disconnected(LinkDisconnect::Silence),
            )
            &&& ends || due ==> after.sync is Idle
            &&& !ends && due ==> actions.last() == LinkActionView::Notify(
                LinkNotice::SyncRejected {
                    reason: LinkRejectReason::Cancelled,
                    sending: !(link.sync is Receiving),
                },
            )
            &&& !ends && !due ==> after == link && actions.len() == 0
        }),
{
}

/// Only a failure to reach the peer is tried again: the connection, the handshake, a port that is
/// still closing. A session of another purpose, or one that begins elsewhere than after its
/// handshake, is tried again too; one that fits is served, and everything else is final.
pub proof fn law_what_follows_an_attempt(established: Established)
    ensures
        established_step(established) == RunStep::Serve <==> established == (Established::Session {
            purpose: SessionPurpose::Setup,
            next_sequence: LINK_START_SEQUENCE,
        }),
        established is Session && established_step(established) != RunStep::Serve
            ==> established_step(established) == RunStep::Retry(LinkDisconnect::Handshake),
        established_step(established) == RunStep::Close <==> established == Established::Closed,
        established == Established::Cancelled ==> established_step(established) == RunStep::Fail(
            SetupFailure::Cancelled,
        ),
        established matches Established::Failed(failure) ==> established_step(established) == (
        match failure {
            SetupFailure::Connection | SetupFailure::PortBusy => RunStep::Retry(
                LinkDisconnect::Attempt,
            ),
            SetupFailure::Handshake => RunStep::Retry(LinkDisconnect::Handshake),
            _ => RunStep::Fail(failure),
        }),
{
}

/// Displays are taken exactly where they were decoded out of a message of this session that opens
/// its order, and as they were decoded.
pub proof fn law_which_displays_are_taken(decoded: Option<DecodedTopology>, epoch: SessionEpoch)
    ensures
        link_topology(decoded, epoch) is Some <==> decoded is Some && decoded->0.epoch == epoch
            && decoded->0.sequence == TOPOLOGY_FRAME_SEQUENCE && decoded->0.topology is Some,
        link_topology(decoded, epoch) is Some ==> link_topology(decoded, epoch)->0
            == decoded->0.topology->0@,
{
}

/// A frame that reads at all is one of this purpose and of a real session, whose header announces
/// its payload's length; a payload comes only with displays, a proposal or the arranging state, and
/// is the one its digest names; a reason comes with a refusal and with nothing else.
pub proof fn law_what_a_read_frame_carries(version: u16, header: Seq<u8>, payload: Seq<u8>)
    requires
        decoded_link(version, header, payload) is Some,
    ensures
        ({
            let frame = decoded_link(version, header, payload)->0;
            let carries = frame.kind == LinkKind::Topology || frame.kind == LinkKind::Proposal
                || frame.kind == LinkKind::Arranging;
            &&& frame.payload == payload
            &&& payload.len() == announced_length(header)
            &&& payload.len() <= MAX_LAYOUT_PAYLOAD_BYTES
            &&& frame.epoch.wf()
            &&& carries <==> payload.len() > 0
            &&& carries ==> frame.digest == sha256(payload)
            &&& frame.kind == LinkKind::Arranging ==> payload == seq![0u8] || payload == seq![1u8]
            &&& frame.kind == LinkKind::Heartbeat || frame.kind == LinkKind::Bye ==> frame.digest
                == no_digest()
            &&& frame.reason is Some <==> frame.kind == LinkKind::Reject
        }),
{
    let frame = decoded_link(version, header, payload)->0;
    if frame.kind == LinkKind::Arranging {
        assert(payload =~= seq![payload[0]]);
    }
}

/// A stream that ends between two frames is the peer leaving; one that ends within a frame is a
/// fault.
pub proof fn law_how_a_stream_ends(reader: ReaderView)
    ensures
        end_of_stream(reader) == Err::<(), _>(LinkDisconnect::PeerClosed) <==> reader.buffer.len()
            == 0,
        end_of_stream(reader) is Err,
        reader.buffer.len() > 0 ==> end_of_stream(reader) == Err::<(), _>(
            LinkDisconnect::Transport,
        ),
{
}

/// The bytes of a frame name its kind and its reason by their numbers, each at its place, and no
/// reason by zero.
pub proof fn law_link_frames_name_their_kind(version: u16, frame: LinkFrameView)
    requires
        frame.digest.len() == 32,
    ensures
        frame.bytes(version)[7] == 5,
        frame.bytes(version)[8] == (match frame.kind {
            LinkKind::Heartbeat => 1u8,
            LinkKind::Topology => 2,
            LinkKind::Proposal => 3,
            LinkKind::Ack => 4,
            LinkKind::Reject => 5,
            LinkKind::Complete => 6,
            LinkKind::Bye => 7,
            LinkKind::Committed => 8,
            LinkKind::Arranging => 9,
        }),
        frame.bytes(version)[9] == (match frame.reason {
            None => 0u8,
            Some(LinkRejectReason::Invalid) => 1,
            Some(LinkRejectReason::InspectionChanged) => 2,
            Some(LinkRejectReason::SaveFailed) => 3,
            Some(LinkRejectReason::Busy) => 4,
            Some(LinkRejectReason::Cancelled) => 5,
        }),
{
    law_a_header_has_its_fields_in_place(
        version,
        LINK_PURPOSE,
        frame.envelope(),
        frame.payload.len(),
    );
}

} // verus!
