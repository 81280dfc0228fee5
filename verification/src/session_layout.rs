//! One-sided, authenticated layout metadata synchronization with no input authority.

use crate::bytes::same_bytes;
use crate::crypto::{sha256, sha256_digest};
use crate::envelope::{
    announced_length, decode_envelope, encode_envelope, header_bytes, header_fields,
    law_a_header_has_its_fields_in_place, lemma_headers_read_back, payload_length, Envelope,
    EnvelopeView,
};
use crate::protocol::{same_geometries, DisplayTopology, SessionEpoch, SessionPurpose};
use crate::session_setup::{check_cancel, SetupFailure};
use crate::time::Duration;
use vstd::prelude::*;
use vstd::slice::slice_to_vec;

verus! {

pub const MAX_LAYOUT_PAYLOAD_BYTES: usize = 32 * 1024;

/// One second.
pub const CONFIGURE_DEADLINE: Duration = 1_000_000_000;

pub const CONFIGURE_CLOSE_CODE: u32 = 4;

pub const CONFIGURE_CLOSE_REASON: &'static str = "layout synchronization incomplete";

pub const CONFIGURE_PURPOSE: u8 = 4;

pub const ROLE_SEQUENCE: u64 = 3;

pub const PROPOSAL_SEQUENCE: u64 = 4;

pub const ACK_SEQUENCE: u64 = 5;

pub const COMPLETE_SEQUENCE: u64 = 6;

#[derive(Clone, Copy, Debug, PartialEq, Eq, Structural)]
pub enum LayoutKind {
    Role,
    Proposal,
    Acknowledgement,
    Complete,
}

impl LayoutKind {
    pub open spec fn code(self) -> u8 {
        match self {
            LayoutKind::Role => 1,
            LayoutKind::Proposal => 2,
            LayoutKind::Acknowledgement => 3,
            LayoutKind::Complete => 4,
        }
    }

    pub open spec fn of_code(value: u8) -> Option<LayoutKind> {
        match value {
            1 => Some(LayoutKind::Role),
            2 => Some(LayoutKind::Proposal),
            3 => Some(LayoutKind::Acknowledgement),
            4 => Some(LayoutKind::Complete),
            _ => None,
        }
    }

    pub fn wire(self) -> (value: u8)
        ensures
            value == self.code(),
    {
        match self {
            LayoutKind::Role => 1,
            LayoutKind::Proposal => 2,
            LayoutKind::Acknowledgement => 3,
            LayoutKind::Complete => 4,
        }
    }

    pub fn from_wire(value: u8) -> (kind: Result<LayoutKind, SetupFailure>)
        ensures
            match LayoutKind::of_code(value) {
                Some(known) => kind == Ok::<_, SetupFailure>(known),
                None => kind == Err::<LayoutKind, _>(SetupFailure::LayoutSyncIncomplete),
            },
    {
        match value {
            1 => Ok(LayoutKind::Role),
            2 => Ok(LayoutKind::Proposal),
            3 => Ok(LayoutKind::Acknowledgement),
            4 => Ok(LayoutKind::Complete),
            _ => Err(SetupFailure::LayoutSyncIncomplete),
        }
    }
}

#[derive(Clone, Copy, Debug, PartialEq, Eq, Structural)]
pub enum LayoutRole {
    Sender,
    Waiting,
}

impl LayoutRole {
    pub open spec fn code(self) -> u8 {
        match self {
            LayoutRole::Sender => 1,
            LayoutRole::Waiting => 2,
        }
    }

    pub open spec fn of_code(value: u8) -> Option<LayoutRole> {
        match value {
            1 => Some(LayoutRole::Sender),
            2 => Some(LayoutRole::Waiting),
            _ => None,
        }
    }

    pub fn wire(self) -> (value: u8)
        ensures
            value == self.code(),
    {
        match self {
            LayoutRole::Sender => 1,
            LayoutRole::Waiting => 2,
        }
    }

    pub fn from_wire(value: u8) -> (role: Result<LayoutRole, SetupFailure>)
        ensures
            match LayoutRole::of_code(value) {
                Some(known) => role == Ok::<_, SetupFailure>(known),
                None => role == Err::<LayoutRole, _>(SetupFailure::LayoutSyncIncomplete),
            },
    {
        match value {
            1 => Ok(LayoutRole::Sender),
            2 => Ok(LayoutRole::Waiting),
            _ => Err(SetupFailure::LayoutSyncIncomplete),
        }
    }
}

#[derive(Clone, Copy, Debug, PartialEq, Eq, Structural)]
pub enum SyncDirection {
    Send,
    Receive,
}

#[derive(Debug)]
pub struct LayoutFrame {
    pub kind: LayoutKind,
    pub role: Option<LayoutRole>,
    pub epoch: SessionEpoch,
    pub sequence: u64,
    pub digest: [u8; 32],
    pub payload: Vec<u8>,
}

#[verifier::ext_equal]
pub struct LayoutView {
    pub kind: LayoutKind,
    pub role: Option<LayoutRole>,
    pub epoch: SessionEpoch,
    pub sequence: u64,
    pub digest: Seq<u8>,
    pub payload: Seq<u8>,
}

impl View for LayoutFrame {
    type V = LayoutView;

    open spec fn view(&self) -> LayoutView {
        LayoutView {
            kind: self.kind,
            role: self.role,
            epoch: self.epoch,
            sequence: self.sequence,
            digest: self.digest@,
            payload: self.payload@,
        }
    }
}

/// The digest of a frame that carries none.
pub open spec fn no_digest() -> Seq<u8> {
    Seq::new(32, |i: int| 0u8)
}

fn is_no_digest(digest: &[u8; 32]) -> (zero: bool)
    ensures
        zero == (digest@ == no_digest()),
{
    let none = [0u8; 32];
    assert(none@ =~= no_digest());
    same_bytes(digest, &none)
}

impl LayoutView {
    /// Each kind of frame carries what it is for and nothing else.
    pub open spec fn is_valid(self) -> bool {
        &&& self.payload.len() <= MAX_LAYOUT_PAYLOAD_BYTES
        &&& match self.kind {
            LayoutKind::Role => self.role is Some && self.payload.len() == 0 && self.digest
                == no_digest(),
            LayoutKind::Proposal => self.role is None && self.payload.len() > 0 && self.digest
                == sha256(self.payload),
            LayoutKind::Acknowledgement | LayoutKind::Complete => self.role is None
                && self.payload.len() == 0,
        }
    }

    pub open spec fn envelope(self) -> EnvelopeView {
        EnvelopeView {
            kind: self.kind.code(),
            detail: match self.role {
                Some(role) => role.code(),
                None => 0,
            },
            epoch: self.epoch.value,
            sequence: self.sequence,
            digest: self.digest,
        }
    }

    /// The bytes of a frame.
    pub open spec fn bytes(self, version: u16) -> Seq<u8> {
        header_bytes(version, CONFIGURE_PURPOSE, self.envelope(), self.payload.len())
            + self.payload
    }
}

/// The role that a header names, where it is none or one of the two.
pub open spec fn role_of(detail: u8) -> Option<Option<LayoutRole>> {
    if detail == 0 {
        Some(None)
    } else {
        match LayoutRole::of_code(detail) {
            Some(role) => Some(Some(role)),
            None => None,
        }
    }
}

/// The frame that a header and a payload make.
pub open spec fn decoded_layout(version: u16, header: Seq<u8>, payload: Seq<u8>) -> Option<
    LayoutView,
> {
    match header_fields(version, CONFIGURE_PURPOSE, header) {
        None => None,
        Some(fields) => match (LayoutKind::of_code(fields.kind), role_of(fields.detail)) {
            (Some(kind), Some(role)) => {
                let frame = LayoutView {
                    kind,
                    role,
                    epoch: SessionEpoch { value: fields.epoch },
                    sequence: fields.sequence,
                    digest: fields.digest,
                    payload,
                };
                if fields.epoch != 0 && announced_length(header) == payload.len()
                    && frame.is_valid() {
                    Some(frame)
                } else {
                    None
                }
            },
            _ => None,
        },
    }
}

/// A layout frame reads back as it was written.
pub proof fn law_layout_frames_read_back(version: u16, frame: LayoutView)
    requires
        frame.is_valid(),
        frame.epoch.wf(),
        frame.digest.len() == 32,
    ensures
        decoded_layout(version, frame.bytes(version).take(64), frame.bytes(version).skip(64))
            == Some(frame),
        frame.bytes(version).len() == 64 + frame.payload.len(),
{
    let header = header_bytes(
        version,
        CONFIGURE_PURPOSE,
        frame.envelope(),
        frame.payload.len(),
    );
    lemma_headers_read_back(version, CONFIGURE_PURPOSE, frame.envelope(), frame.payload.len());
    assert(frame.bytes(version).take(64) =~= header);
    assert(frame.bytes(version).skip(64) =~= frame.payload);
}

pub fn encode_layout_frame(frame: &LayoutFrame, version: u16) -> (bytes: Result<
    Vec<u8>,
    SetupFailure,
>)
    ensures
        match bytes {
            Ok(encoded) => frame@.is_valid() && encoded@ == frame@.bytes(version),
            Err(error) => !frame@.is_valid() && error == SetupFailure::LayoutSyncIncomplete,
        },
{
    if let Err(error) = validate_layout_frame(frame) {
        return Err(error);
    }
    let envelope = Envelope {
        kind: frame.kind.wire(),
        detail: match frame.role {
            Some(role) => role.wire(),
            None => 0,
        },
        epoch: frame.epoch.get(),
        sequence: frame.sequence,
        digest: frame.digest,
    };
    assert(envelope@ == frame@.envelope());
    Ok(encode_envelope(version, CONFIGURE_PURPOSE, &envelope, frame.payload.as_slice()))
}

/// How many bytes of payload follow a header, where they are not too many.
pub fn layout_payload_length(header: &[u8; 64]) -> (length: Result<usize, SetupFailure>)
    ensures
        match length {
            Ok(count) => count == announced_length(header@) && count <= MAX_LAYOUT_PAYLOAD_BYTES,
            Err(error) => announced_length(header@) > MAX_LAYOUT_PAYLOAD_BYTES && error
                == SetupFailure::LayoutSyncIncomplete,
        },
{
    let length: u64 = payload_length(header);
    if length > MAX_LAYOUT_PAYLOAD_BYTES as u64 {
        return Err(SetupFailure::LayoutSyncIncomplete);
    }
    Ok(length as usize)
}

pub fn decode_layout_frame(header: &[u8; 64], payload: Vec<u8>, version: u16) -> (frame: Result<
    LayoutFrame,
    SetupFailure,
>)
    ensures
        match decoded_layout(version, header@, payload@) {
            Some(view) => frame matches Ok(decoded) && decoded@ == view,
            None => frame == Err::<LayoutFrame, _>(SetupFailure::LayoutSyncIncomplete),
        },
{
    let fields = match decode_envelope(version, CONFIGURE_PURPOSE, header) {
        Some(fields) => fields,
        None => return Err(SetupFailure::LayoutSyncIncomplete),
    };
    let kind = match LayoutKind::from_wire(fields.kind) {
        Ok(kind) => kind,
        Err(error) => return Err(error),
    };
    let role = if fields.detail == 0 {
        None
    } else {
        match LayoutRole::from_wire(fields.detail) {
            Ok(role) => Some(role),
            Err(error) => return Err(error),
        }
    };
    let epoch = match SessionEpoch::new(fields.epoch) {
        Some(epoch) => epoch,
        None => return Err(SetupFailure::LayoutSyncIncomplete),
    };
    if payload_length(header) != payload.len() as u64 {
        return Err(SetupFailure::LayoutSyncIncomplete);
    }
    let frame = LayoutFrame {
        kind,
        role,
        epoch,
        sequence: fields.sequence,
        digest: fields.digest,
        payload,
    };
    match validate_layout_frame(&frame) {
        Ok(()) => Ok(frame),
        Err(error) => Err(error),
    }
}

pub fn validate_layout_frame(frame: &LayoutFrame) -> (result: Result<(), SetupFailure>)
    ensures
        result == (if frame@.is_valid() {
            Ok::<(), SetupFailure>(())
        } else {
            Err::<(), SetupFailure>(SetupFailure::LayoutSyncIncomplete)
        }),
{
    if frame.payload.len() > MAX_LAYOUT_PAYLOAD_BYTES {
        return Err(SetupFailure::LayoutSyncIncomplete);
    }
    let valid = match frame.kind {
        LayoutKind::Role => frame.role.is_some() && frame.payload.is_empty() && is_no_digest(
            &frame.digest,
        ),
        LayoutKind::Proposal => frame.role.is_none() && !frame.payload.is_empty() && same_bytes(
            &frame.digest,
            &digest(frame.payload.as_slice()),
        ),
        LayoutKind::Acknowledgement | LayoutKind::Complete => frame.role.is_none()
            && frame.payload.is_empty(),
    };
    if valid {
        Ok(())
    } else {
        Err(SetupFailure::LayoutSyncIncomplete)
    }
}

pub fn validate_local_proposal(proposal: Option<&[u8]>) -> (result: Result<(), SetupFailure>)
    ensures
        result == (if proposal matches Some(payload) && (payload@.len() == 0 || payload@.len()
            > MAX_LAYOUT_PAYLOAD_BYTES) {
            Err::<(), SetupFailure>(SetupFailure::Layout)
        } else {
            Ok::<(), SetupFailure>(())
        }),
{
    match proposal {
        Some(payload) => if payload.is_empty() || payload.len() > MAX_LAYOUT_PAYLOAD_BYTES {
            Err(SetupFailure::Layout)
        } else {
            Ok(())
        },
        None => Ok(()),
    }
}

/// Whether freshly read local displays are those that were inspected.
pub fn ensure_fresh_local_displays(current: Option<&DisplayTopology>, inspected: &DisplayTopology) -> (result:
    Result<(), SetupFailure>)
    ensures
        result == (match current {
            None => Err::<(), SetupFailure>(SetupFailure::Displays),
            Some(read) => if same_geometries(read@, inspected@) {
                Ok::<(), SetupFailure>(())
            } else {
                Err::<(), SetupFailure>(SetupFailure::ChangedSinceInspection)
            },
        }),
{
    match current {
        None => Err(SetupFailure::Displays),
        Some(read) => if read.same_geometry(inspected) {
            Ok(())
        } else {
            Err(SetupFailure::ChangedSinceInspection)
        },
    }
}

/// An acknowledgement names the digest it acknowledges and carries nothing else.
pub open spec fn acknowledges(frame: LayoutView, digest: Seq<u8>) -> bool {
    frame.digest == digest && frame.payload.len() == 0
}

pub fn acknowledgement_matches(acknowledgement: Option<&LayoutFrame>, digest: [u8; 32]) -> (result:
    Result<(), SetupFailure>)
    ensures
        result == (if acknowledgement matches Some(frame) && acknowledges(frame@, digest@) {
            Ok::<(), SetupFailure>(())
        } else {
            Err::<(), SetupFailure>(SetupFailure::LayoutSyncIncomplete)
        }),
{
    match acknowledgement {
        Some(frame) => if same_bytes(&frame.digest, &digest) && frame.payload.is_empty() {
            Ok(())
        } else {
            Err(SetupFailure::LayoutSyncIncomplete)
        },
        None => Err(SetupFailure::LayoutSyncIncomplete),
    }
}

pub fn check_active(cancel_revoked: bool, endpoint_revoked: bool) -> (result: Result<
    (),
    SetupFailure,
>)
    ensures
        result == (if cancel_revoked || endpoint_revoked {
            Err::<(), SetupFailure>(SetupFailure::Cancelled)
        } else {
            Ok::<(), SetupFailure>(())
        }),
{
    check_cancel(cancel_revoked || endpoint_revoked)
}

/// Why an exchange is reported as failed: a passed deadline first, then a revocation.
pub open spec fn failure_of(
    error: SetupFailure,
    is_revoked: bool,
    deadline_expired: bool,
) -> SetupFailure {
    if deadline_expired {
        SetupFailure::LayoutSyncIncomplete
    } else if is_revoked {
        SetupFailure::Cancelled
    } else {
        error
    }
}

pub fn active_failure(error: SetupFailure, is_revoked: bool, deadline_expired: bool) -> (failure:
    SetupFailure)
    ensures
        failure == failure_of(error, is_revoked, deadline_expired),
{
    if deadline_expired {
        SetupFailure::LayoutSyncIncomplete
    } else if is_revoked {
        SetupFailure::Cancelled
    } else {
        error
    }
}

pub open spec fn direction_of(local_has_proposal: bool, remote_role: LayoutRole) -> Option<
    SyncDirection,
> {
    if local_has_proposal && remote_role == LayoutRole::Waiting {
        Some(SyncDirection::Send)
    } else if !local_has_proposal && remote_role == LayoutRole::Sender {
        Some(SyncDirection::Receive)
    } else {
        None
    }
}

pub open spec fn role_for(has_proposal: bool) -> LayoutRole {
    if has_proposal {
        LayoutRole::Sender
    } else {
        LayoutRole::Waiting
    }
}

pub fn sync_direction(local_has_proposal: bool, remote_role: LayoutRole) -> (direction: Result<
    SyncDirection,
    SetupFailure,
>)
    ensures
        match direction_of(local_has_proposal, remote_role) {
            Some(known) => direction == Ok::<_, SetupFailure>(known),
            None => direction == Err::<SyncDirection, _>(SetupFailure::LayoutSyncConflict),
        },
{
    match (local_has_proposal, remote_role) {
        (true, LayoutRole::Waiting) => Ok(SyncDirection::Send),
        (false, LayoutRole::Sender) => Ok(SyncDirection::Receive),
        _ => Err(SetupFailure::LayoutSyncConflict),
    }
}

/// Two computers go on only where exactly one of them has a layout, and then one sends and the
/// other receives.
pub proof fn law_exactly_one_side_sends(first_has: bool, second_has: bool)
    ensures
        (direction_of(first_has, role_for(second_has)) is Some) == (first_has != second_has),
        (direction_of(second_has, role_for(first_has)) is Some) == (first_has != second_has),
        first_has && !second_has ==> direction_of(first_has, role_for(second_has)) == Some(
            SyncDirection::Send,
        ) && direction_of(second_has, role_for(first_has)) == Some(SyncDirection::Receive),
{
}

fn digest(payload: &[u8]) -> (digest: [u8; 32])
    ensures
        digest@ == sha256(payload@),
{
    sha256_digest(payload)
}

/// One step of a layout exchange.
#[derive(Clone, Copy, Debug, PartialEq, Eq, Structural)]
pub enum SyncStep {
    /// See that neither the action nor the endpoint was revoked.
    Active,
    /// See that the local displays are still those that were inspected.
    Fresh,
    /// Write the frame that [`LayoutSync::frame`] gives.
    Write(LayoutKind),
    /// Read one frame.
    Read(LayoutKind),
    /// Store the layout that [`LayoutSync::payload`] gives.
    Persist,
    /// Close both directions and see that nothing is left in them.
    Drain,
}

/// The steps before the direction is known.
pub open spec fn opening() -> Seq<SyncStep> {
    seq![
        SyncStep::Active,
        SyncStep::Write(LayoutKind::Role),
        SyncStep::Read(LayoutKind::Role),
    ]
}

/// The steps of an exchange.
pub open spec fn plan(direction: Option<SyncDirection>) -> Seq<SyncStep> {
    match direction {
        None => opening(),
        Some(SyncDirection::Send) => opening() + seq![
            SyncStep::Fresh,
            SyncStep::Active,
            SyncStep::Write(LayoutKind::Proposal),
            SyncStep::Read(LayoutKind::Acknowledgement),
            SyncStep::Active,
            SyncStep::Fresh,
            SyncStep::Persist,
            SyncStep::Active,
            SyncStep::Fresh,
            SyncStep::Write(LayoutKind::Complete),
            SyncStep::Drain,
            SyncStep::Active,
        ],
        Some(SyncDirection::Receive) => opening() + seq![
            SyncStep::Read(LayoutKind::Proposal),
            SyncStep::Active,
            SyncStep::Fresh,
            SyncStep::Persist,
            SyncStep::Active,
            SyncStep::Fresh,
            SyncStep::Write(LayoutKind::Acknowledgement),
            SyncStep::Read(LayoutKind::Complete),
            SyncStep::Drain,
            SyncStep::Active,
        ],
    }
}

/// What came of a step.
pub enum SyncOutcome {
    Done,
    Failed(SetupFailure),
    /// The frame that was read.
    Frame(LayoutFrame),
}

pub enum OutcomeView {
    Done,
    Failed(SetupFailure),
    Frame(LayoutView),
}

impl View for SyncOutcome {
    type V = OutcomeView;

    open spec fn view(&self) -> OutcomeView {
        match self {
            SyncOutcome::Done => OutcomeView::Done,
            SyncOutcome::Failed(failure) => OutcomeView::Failed(*failure),
            SyncOutcome::Frame(frame) => OutcomeView::Frame(frame@),
        }
    }
}

/// How far a layout exchange has come.
pub struct LayoutSync {
    epoch: SessionEpoch,
    direction: Option<SyncDirection>,
    place: usize,
    has_proposal: bool,
    payload: Vec<u8>,
    digest: [u8; 32],
}

#[verifier::ext_equal]
pub struct SyncView {
    pub epoch: SessionEpoch,
    pub direction: Option<SyncDirection>,
    pub place: int,
    pub has_proposal: bool,
    /// The local layout, or the one that was received.
    pub payload: Seq<u8>,
    pub digest: Seq<u8>,
}

pub open spec fn sequence_of(kind: LayoutKind) -> u64 {
    match kind {
        LayoutKind::Role => ROLE_SEQUENCE,
        LayoutKind::Proposal => PROPOSAL_SEQUENCE,
        LayoutKind::Acknowledgement => ACK_SEQUENCE,
        LayoutKind::Complete => COMPLETE_SEQUENCE,
    }
}

impl SyncView {
    pub open spec fn wf(self) -> bool {
        0 <= self.place <= plan(self.direction).len()
    }

    pub open spec fn step(self) -> Option<SyncStep> {
        if 0 <= self.place < plan(self.direction).len() {
            Some(plan(self.direction)[self.place])
        } else {
            None
        }
    }

    pub open spec fn advanced(self) -> SyncView {
        SyncView { place: self.place + 1, ..self }
    }

    /// The frame that this side writes as one of a kind.
    pub open spec fn outgoing(self, kind: LayoutKind) -> LayoutView {
        LayoutView {
            kind,
            role: if kind == LayoutKind::Role {
                Some(role_for(self.has_proposal))
            } else {
                None
            },
            epoch: self.epoch,
            sequence: sequence_of(kind),
            digest: if kind == LayoutKind::Role {
                no_digest()
            } else {
                self.digest
            },
            payload: if kind == LayoutKind::Proposal {
                self.payload
            } else {
                Seq::empty()
            },
        }
    }

    /// After the peer's frame of an expected kind.
    pub open spec fn after_frame(self, kind: LayoutKind, frame: LayoutView) -> Result<
        SyncView,
        SetupFailure,
    > {
        if frame.epoch != self.epoch || frame.sequence != sequence_of(kind) || frame.kind != kind {
            Err(SetupFailure::LayoutSyncIncomplete)
        } else {
            match kind {
                LayoutKind::Role => match frame.role {
                    None => Err(SetupFailure::LayoutSyncIncomplete),
                    Some(role) => match direction_of(self.has_proposal, role) {
                        None => Err(SetupFailure::LayoutSyncConflict),
                        Some(direction) => Ok(
                            SyncView { direction: Some(direction), ..self.advanced() },
                        ),
                    },
                },
                LayoutKind::Proposal => if frame.digest == sha256(frame.payload) {
                    Ok(
                        SyncView {
                            payload: frame.payload,
                            digest: frame.digest,
                            ..self.advanced()
                        },
                    )
                } else {
                    Err(SetupFailure::LayoutSyncIncomplete)
                },
                LayoutKind::Acknowledgement | LayoutKind::Complete => if acknowledges(
                    frame,
                    self.digest,
                ) {
                    Ok(self.advanced())
                } else {
                    Err(SetupFailure::LayoutSyncIncomplete)
                },
            }
        }
    }

    /// After a step.
    pub open spec fn after(self, outcome: OutcomeView) -> Result<SyncView, SetupFailure> {
        match (self.step(), outcome) {
            (Some(SyncStep::Read(kind)), OutcomeView::Frame(frame)) => self.after_frame(kind, frame),
            (Some(SyncStep::Persist), OutcomeView::Failed(failure)) => if self.direction == Some(
                SyncDirection::Send,
            ) {
                Err(SetupFailure::LayoutSyncIncomplete)
            } else {
                Err(failure)
            },
            (_, OutcomeView::Failed(failure)) => Err(failure),
            (Some(SyncStep::Read(_)), OutcomeView::Done) => Err(SetupFailure::LayoutSyncIncomplete),
            (Some(_), OutcomeView::Done) => Ok(self.advanced()),
            (_, OutcomeView::Frame(_)) => Err(SetupFailure::LayoutSyncIncomplete),
            (None, OutcomeView::Done) => Err(SetupFailure::LayoutSyncIncomplete),
        }
    }
}

impl View for LayoutSync {
    type V = SyncView;

    closed spec fn view(&self) -> SyncView {
        SyncView {
            epoch: self.epoch,
            direction: self.direction,
            place: self.place as int,
            has_proposal: self.has_proposal,
            payload: self.payload@,
            digest: self.digest@,
        }
    }
}

impl LayoutSync {
    /// Begins an exchange on a session whose next control frame is `next_sequence`.
    pub fn begin(
        purpose: SessionPurpose,
        next_sequence: u64,
        epoch: SessionEpoch,
        proposal: Option<Vec<u8>>,
    ) -> (sync: Result<LayoutSync, SetupFailure>)
        ensures
            if purpose != SessionPurpose::Configure {
                sync == Err::<LayoutSync, _>(SetupFailure::Handshake)
            } else if next_sequence != ROLE_SEQUENCE {
                sync == Err::<LayoutSync, _>(SetupFailure::LayoutSyncIncomplete)
            } else {
                sync matches Ok(begun) && begun@.wf() && begun@.epoch == epoch
                    && begun@.direction is None && begun@.place == 0 && begun@.has_proposal == (
                proposal is Some) && (match proposal {
                    Some(payload) => begun@.payload == payload@ && begun@.digest == sha256(
                        payload@,
                    ),
                    None => begun@.payload.len() == 0 && begun@.digest == no_digest(),
                })
            },
    {
        if purpose != SessionPurpose::Configure {
            return Err(SetupFailure::Handshake);
        }
        if next_sequence != ROLE_SEQUENCE {
            return Err(SetupFailure::LayoutSyncIncomplete);
        }
        match proposal {
            Some(payload) => {
                let digest = digest(payload.as_slice());
                Ok(
                    LayoutSync {
                        epoch,
                        direction: None,
                        place: 0,
                        has_proposal: true,
                        payload,
                        digest,
                    },
                )
            },
            None => {
                let none = [0u8; 32];
                assert(none@ =~= no_digest());
                Ok(
                    LayoutSync {
                        epoch,
                        direction: None,
                        place: 0,
                        has_proposal: false,
                        payload: Vec::new(),
                        digest: none,
                    },
                )
            },
        }
    }

    /// The step to take now; none when the exchange is complete.
    pub fn step(&self) -> (step: Option<SyncStep>)
        ensures
            step == self@.step(),
    {
        let opening = match self.place {
            0 => Some(SyncStep::Active),
            1 => Some(SyncStep::Write(LayoutKind::Role)),
            2 => Some(SyncStep::Read(LayoutKind::Role)),
            _ => None,
        };
        if opening.is_some() {
            return opening;
        }
        match self.direction {
            None => None,
            Some(SyncDirection::Send) => match self.place {
                3 => Some(SyncStep::Fresh),
                4 => Some(SyncStep::Active),
                5 => Some(SyncStep::Write(LayoutKind::Proposal)),
                6 => Some(SyncStep::Read(LayoutKind::Acknowledgement)),
                7 => Some(SyncStep::Active),
                8 => Some(SyncStep::Fresh),
                9 => Some(SyncStep::Persist),
                10 => Some(SyncStep::Active),
                11 => Some(SyncStep::Fresh),
                12 => Some(SyncStep::Write(LayoutKind::Complete)),
                13 => Some(SyncStep::Drain),
                14 => Some(SyncStep::Active),
                _ => None,
            },
            Some(SyncDirection::Receive) => match self.place {
                3 => Some(SyncStep::Read(LayoutKind::Proposal)),
                4 => Some(SyncStep::Active),
                5 => Some(SyncStep::Fresh),
                6 => Some(SyncStep::Persist),
                7 => Some(SyncStep::Active),
                8 => Some(SyncStep::Fresh),
                9 => Some(SyncStep::Write(LayoutKind::Acknowledgement)),
                10 => Some(SyncStep::Read(LayoutKind::Complete)),
                11 => Some(SyncStep::Drain),
                12 => Some(SyncStep::Active),
                _ => None,
            },
        }
    }

    /// The frame that this side writes as one of a kind.
    pub fn frame(&self, kind: LayoutKind) -> (frame: LayoutFrame)
        ensures
            frame@ == self@.outgoing(kind),
    {
        let none = [0u8; 32];
        assert(none@ =~= no_digest());
        LayoutFrame {
            kind,
            role: match kind {
                LayoutKind::Role => Some(
                    if self.has_proposal {
                        LayoutRole::Sender
                    } else {
                        LayoutRole::Waiting
                    },
                ),
                _ => None,
            },
            epoch: self.epoch,
            sequence: match kind {
                LayoutKind::Role => ROLE_SEQUENCE,
                LayoutKind::Proposal => PROPOSAL_SEQUENCE,
                LayoutKind::Acknowledgement => ACK_SEQUENCE,
                LayoutKind::Complete => COMPLETE_SEQUENCE,
            },
            digest: match kind {
                LayoutKind::Role => none,
                _ => self.digest,
            },
            payload: match kind {
                LayoutKind::Proposal => slice_to_vec(self.payload.as_slice()),
                _ => Vec::new(),
            },
        }
    }

    /// The layout that is exchanged, once it is known.
    pub fn payload(&self) -> (payload: &[u8])
        ensures
            payload@ == self@.payload,
    {
        self.payload.as_slice()
    }

    /// Notes what came of the step that was to be taken.
    pub fn advance(&mut self, outcome: SyncOutcome) -> (result: Result<(), SetupFailure>)
        requires
            old(self)@.wf(),
        ensures
            final(self)@.wf(),
            match old(self)@.after(outcome@) {
                Ok(next) => result == Ok::<(), SetupFailure>(()) && final(self)@ == next,
                Err(failure) => result == Err::<(), _>(failure) && final(self)@ == old(self)@,
            },
    {
        match (self.step(), outcome) {
            (Some(SyncStep::Read(kind)), SyncOutcome::Frame(frame)) => self.accept(kind, frame),
            (Some(SyncStep::Persist), SyncOutcome::Failed(failure)) => match self.direction {
                Some(SyncDirection::Send) => Err(SetupFailure::LayoutSyncIncomplete),
                _ => Err(failure),
            },
            (_, SyncOutcome::Failed(failure)) => Err(failure),
            (Some(SyncStep::Read(_)), SyncOutcome::Done) => Err(SetupFailure::LayoutSyncIncomplete),
            (Some(_), SyncOutcome::Done) => {
                self.place = self.place + 1;
                Ok(())
            },
            _ => Err(SetupFailure::LayoutSyncIncomplete),
        }
    }

    fn accept(&mut self, kind: LayoutKind, frame: LayoutFrame) -> (result: Result<(), SetupFailure>)
        requires
            old(self)@.wf(),
            old(self)@.step() == Some(SyncStep::Read(kind)),
        ensures
            final(self)@.wf(),
            match old(self)@.after_frame(kind, frame@) {
                Ok(next) => result == Ok::<(), SetupFailure>(()) && final(self)@ == next,
                Err(failure) => result == Err::<(), _>(failure) && final(self)@ == old(self)@,
            },
    {
        let sequence: u64 = match kind {
            LayoutKind::Role => ROLE_SEQUENCE,
            LayoutKind::Proposal => PROPOSAL_SEQUENCE,
            LayoutKind::Acknowledgement => ACK_SEQUENCE,
            LayoutKind::Complete => COMPLETE_SEQUENCE,
        };
        if frame.epoch != self.epoch || frame.sequence != sequence || frame.kind != kind {
            return Err(SetupFailure::LayoutSyncIncomplete);
        }
        match kind {
            LayoutKind::Role => {
                let role = match frame.role {
                    Some(role) => role,
                    None => return Err(SetupFailure::LayoutSyncIncomplete),
                };
                match sync_direction(self.has_proposal, role) {
                    Ok(direction) => self.direction = Some(direction),
                    Err(error) => return Err(error),
                }
            },
            LayoutKind::Proposal => {
                if !same_bytes(&frame.digest, &digest(frame.payload.as_slice())) {
                    return Err(SetupFailure::LayoutSyncIncomplete);
                }
                self.digest = frame.digest;
                self.payload = frame.payload;
            },
            LayoutKind::Acknowledgement | LayoutKind::Complete => {
                if let Err(error) = acknowledgement_matches(Some(&frame), self.digest) {
                    return Err(error);
                }
            },
        }
        self.place = self.place + 1;
        Ok(())
    }
}

/// The receiver acknowledges a layout only after it stored it, with both checks before and after;
/// the sender stores it only after the acknowledgement and completes only after it stored it.
pub proof fn law_layouts_are_stored_before_they_are_confirmed(place: int)
    requires
        0 <= place,
    ensures
        place < plan(Some(SyncDirection::Receive)).len() && plan(
            Some(SyncDirection::Receive),
        )[place] == SyncStep::Write(LayoutKind::Acknowledgement) ==> plan(
            Some(SyncDirection::Receive),
        )[place - 3] == SyncStep::Persist,
        place < plan(Some(SyncDirection::Send)).len() && plan(Some(SyncDirection::Send))[place]
            == SyncStep::Persist ==> plan(Some(SyncDirection::Send))[place - 3] == SyncStep::Read(
            LayoutKind::Acknowledgement,
        ),
        place < plan(Some(SyncDirection::Send)).len() && plan(Some(SyncDirection::Send))[place]
            == SyncStep::Write(LayoutKind::Complete) ==> plan(Some(SyncDirection::Send))[place - 3]
            == SyncStep::Persist,
{
}

/// What one side writes, the other accepts: with one layout between them, the role, the proposal,
/// the acknowledgement and the completion each take the peer one step on, and both sides end with
/// the same layout.
pub proof fn law_each_side_accepts_what_the_other_writes(sender: SyncView, receiver: SyncView)
    requires
        sender.epoch == receiver.epoch,
        sender.has_proposal,
        !receiver.has_proposal,
        sender.digest == sha256(sender.payload),
    ensures
        sender.after_frame(LayoutKind::Role, receiver.outgoing(LayoutKind::Role)) == Ok::<
            SyncView,
            SetupFailure,
        >((SyncView { direction: Some(SyncDirection::Send), ..sender.advanced() })),
        receiver.after_frame(LayoutKind::Role, sender.outgoing(LayoutKind::Role)) == Ok::<
            SyncView,
            SetupFailure,
        >((SyncView { direction: Some(SyncDirection::Receive), ..receiver.advanced() })),
        receiver.after_frame(LayoutKind::Proposal, sender.outgoing(LayoutKind::Proposal)) == Ok::<
            SyncView,
            SetupFailure,
        >((SyncView { payload: sender.payload, digest: sender.digest, ..receiver.advanced() })),
        receiver.digest == sender.digest ==> sender.after_frame(
            LayoutKind::Acknowledgement,
            receiver.outgoing(LayoutKind::Acknowledgement),
        ) == Ok::<SyncView, SetupFailure>(sender.advanced()),
        receiver.digest == sender.digest ==> receiver.after_frame(
            LayoutKind::Complete,
            sender.outgoing(LayoutKind::Complete),
        ) == Ok::<SyncView, SetupFailure>(receiver.advanced()),
{
}

/// What came of an exchange within its time.
#[derive(Clone, Copy, Debug, PartialEq, Eq, Structural)]
pub enum Exchange {
    Completed,
    Failed(SetupFailure),
    TimedOut,
}

/// What follows an exchange.
#[derive(Clone, Copy, Debug, PartialEq, Eq, Structural)]
pub enum ExchangeVerdict {
    Proceed,
    /// Undo what was stored, close the connection and report.
    AbortAndClose(SetupFailure),
    /// Undo what was stored and report.
    Abort(SetupFailure),
    /// Report; what was stored stays.
    Fail(SetupFailure),
}

pub open spec fn exchange_verdict(
    exchange: Exchange,
    is_revoked: bool,
    deadline_expired: bool,
) -> ExchangeVerdict {
    match exchange {
        Exchange::Completed => if deadline_expired {
            ExchangeVerdict::AbortAndClose(SetupFailure::LayoutSyncIncomplete)
        } else {
            ExchangeVerdict::Proceed
        },
        Exchange::Failed(error) => ExchangeVerdict::AbortAndClose(
            failure_of(error, is_revoked, deadline_expired),
        ),
        Exchange::TimedOut => ExchangeVerdict::AbortAndClose(
            failure_of(SetupFailure::LayoutSyncIncomplete, is_revoked, deadline_expired),
        ),
    }
}

/// What follows an exchange, where the deadline and the revocation were read after it.
pub fn settle_exchange(exchange: Exchange, is_revoked: bool, deadline_expired: bool) -> (verdict:
    ExchangeVerdict)
    ensures
        verdict == exchange_verdict(exchange, is_revoked, deadline_expired),
{
    match exchange {
        Exchange::Completed => if deadline_expired {
            ExchangeVerdict::AbortAndClose(SetupFailure::LayoutSyncIncomplete)
        } else {
            ExchangeVerdict::Proceed
        },
        Exchange::Failed(error) => ExchangeVerdict::AbortAndClose(
            active_failure(error, is_revoked, deadline_expired),
        ),
        Exchange::TimedOut => ExchangeVerdict::AbortAndClose(
            active_failure(SetupFailure::LayoutSyncIncomplete, is_revoked, deadline_expired),
        ),
    }
}

pub open spec fn standing_verdict(is_revoked: bool, deadline_expired: bool) -> ExchangeVerdict {
    if deadline_expired {
        ExchangeVerdict::Abort(SetupFailure::LayoutSyncIncomplete)
    } else if is_revoked {
        ExchangeVerdict::Fail(SetupFailure::Cancelled)
    } else {
        ExchangeVerdict::Proceed
    }
}

/// Whether a completed exchange still stands, before and after the endpoint drained.
pub fn settle_standing(is_revoked: bool, deadline_expired: bool) -> (verdict: ExchangeVerdict)
    ensures
        verdict == standing_verdict(is_revoked, deadline_expired),
{
    if deadline_expired {
        return ExchangeVerdict::Abort(SetupFailure::LayoutSyncIncomplete);
    }
    match check_active(is_revoked, false) {
        Ok(()) => ExchangeVerdict::Proceed,
        Err(error) => ExchangeVerdict::Fail(error),
    }
}

/// Why an endpoint that did not drain fails the exchange.
pub fn drain_failure(is_revoked: bool, deadline_expired: bool) -> (failure: SetupFailure)
    ensures
        failure == failure_of(SetupFailure::LayoutSyncIncomplete, is_revoked, deadline_expired),
{
    active_failure(SetupFailure::LayoutSyncIncomplete, is_revoked, deadline_expired)
}

/// A deadline that passed is never reported as success, and an exchange that did not complete always
/// undoes what was stored.
pub proof fn law_a_late_exchange_is_undone(exchange: Exchange, is_revoked: bool)
    ensures
        exchange_verdict(exchange, is_revoked, true) == ExchangeVerdict::AbortAndClose(
            SetupFailure::LayoutSyncIncomplete,
        ),
        standing_verdict(is_revoked, true) == ExchangeVerdict::Abort(
            SetupFailure::LayoutSyncIncomplete,
        ),
        exchange != Exchange::Completed ==> exchange_verdict(
            exchange,
            is_revoked,
            false,
        ) is AbortAndClose,
{
}

/// What one side of an exchange writes, the other side reads, in either direction.
pub proof fn law_what_one_side_writes_the_other_reads(kind: LayoutKind)
    ensures
        plan(Some(SyncDirection::Send)).contains(SyncStep::Write(kind)) <==> plan(
            Some(SyncDirection::Receive),
        ).contains(SyncStep::Read(kind)),
        plan(Some(SyncDirection::Receive)).contains(SyncStep::Write(kind)) <==> plan(
            Some(SyncDirection::Send),
        ).contains(SyncStep::Read(kind)),
        kind != LayoutKind::Role ==> plan(Some(SyncDirection::Send)).contains(SyncStep::Write(kind))
            != plan(Some(SyncDirection::Receive)).contains(SyncStep::Write(kind)),
{
    let send = plan(Some(SyncDirection::Send));
    let receive = plan(Some(SyncDirection::Receive));
    assert(send[1] == SyncStep::Write(LayoutKind::Role));
    assert(send[2] == SyncStep::Read(LayoutKind::Role));
    assert(send[5] == SyncStep::Write(LayoutKind::Proposal));
    assert(send[6] == SyncStep::Read(LayoutKind::Acknowledgement));
    assert(send[12] == SyncStep::Write(LayoutKind::Complete));
    assert(receive[1] == SyncStep::Write(LayoutKind::Role));
    assert(receive[2] == SyncStep::Read(LayoutKind::Role));
    assert(receive[3] == SyncStep::Read(LayoutKind::Proposal));
    assert(receive[9] == SyncStep::Write(LayoutKind::Acknowledgement));
    assert(receive[10] == SyncStep::Read(LayoutKind::Complete));
}

/// Right before a layout is proposed, stored, acknowledged or completed, a side sees that the action
/// was not revoked and that its displays are still those that were inspected; and each exchange ends
/// with both directions drained and one more look at the action.
pub proof fn law_every_weighty_step_is_checked_first(direction: SyncDirection, place: int)
    requires
        0 <= place < plan(Some(direction)).len(),
    ensures
        ({
            let steps = plan(Some(direction));
            let step = steps[place];
            let weighty = step == SyncStep::Persist || step == SyncStep::Write(LayoutKind::Proposal)
                || step == SyncStep::Write(LayoutKind::Acknowledgement) || step == SyncStep::Write(
                LayoutKind::Complete,
            );
            &&& weighty ==> place >= 2 && (steps[place - 1] == SyncStep::Active && steps[place - 2]
                == SyncStep::Fresh || steps[place - 1] == SyncStep::Fresh && steps[place - 2]
                == SyncStep::Active)
            &&& steps[steps.len() - 2] == SyncStep::Drain
            &&& steps.last() == SyncStep::Active
            &&& steps[0] == SyncStep::Active
            &&& exists|i: int| 0 <= i < steps.len() && #[trigger] steps[i] == SyncStep::Persist
        }),
{
    let send = plan(Some(SyncDirection::Send));
    let receive = plan(Some(SyncDirection::Receive));
    assert(send[9] == SyncStep::Persist);
    assert(receive[6] == SyncStep::Persist);
}

/// A step that failed ends the exchange with its failure; where it was the sender's own store, the
/// exchange is incomplete, since the peer has stored already. A step that is done is followed by the
/// next of the plan, and a frame is taken only where one is read.
pub proof fn law_a_step_leads_to_the_next(sync: SyncView, failure: SetupFailure, frame: LayoutView)
    requires
        sync.wf(),
        sync.step() is Some,
    ensures
        sync.after(OutcomeView::Failed(failure)) == Err::<SyncView, _>(
            if sync.step() == Some(SyncStep::Persist) && sync.direction == Some(
                SyncDirection::Send,
            ) {
                SetupFailure::LayoutSyncIncomplete
            } else {
                failure
            },
        ),
        !(sync.step()->0 is Read) ==> sync.after(OutcomeView::Done) == Ok::<SyncView, SetupFailure>(
            SyncView { place: sync.place + 1, ..sync },
        ) && sync.after(OutcomeView::Frame(frame)) == Err::<SyncView, _>(
            SetupFailure::LayoutSyncIncomplete,
        ),
        sync.step()->0 is Read ==> sync.after(OutcomeView::Done) == Err::<SyncView, _>(
            SetupFailure::LayoutSyncIncomplete,
        ),
{
}

/// A frame is taken exactly where it is of this session, stands in its place, is of the kind that is
/// read, and fits: a role where one side has a layout and the other waits, a layout that its digest
/// names, an acknowledgement or a completion of the layout that is under way. The layout that was
/// read is the one that is kept.
pub proof fn law_which_frames_an_exchange_takes(sync: SyncView, kind: LayoutKind, frame: LayoutView)
    ensures
        ({
            let next = sync.after_frame(kind, frame);
            let in_place = frame.epoch == sync.epoch && frame.kind == kind && frame.sequence == (
            match kind {
                LayoutKind::Role => ROLE_SEQUENCE,
                LayoutKind::Proposal => PROPOSAL_SEQUENCE,
                LayoutKind::Acknowledgement => ACK_SEQUENCE,
                LayoutKind::Complete => COMPLETE_SEQUENCE,
            });
            let fits = match kind {
                LayoutKind::Role => frame.role is Some && sync.has_proposal == (frame.role
                    == Some(LayoutRole::Waiting)),
                LayoutKind::Proposal => frame.digest == sha256(frame.payload),
                _ => frame.digest == sync.digest && frame.payload.len() == 0,
            };
            &&& next is Ok <==> in_place && fits
            &&& next matches Err(failure) ==> (failure == SetupFailure::LayoutSyncConflict
                <==> in_place && kind == LayoutKind::Role && frame.role is Some) && (failure
                == SetupFailure::LayoutSyncConflict || failure
                == SetupFailure::LayoutSyncIncomplete)
            &&& next matches Ok(after) ==> after.place == sync.place + 1 && after.epoch
                == sync.epoch && after.has_proposal == sync.has_proposal && (kind
                == LayoutKind::Proposal ==> after.payload == frame.payload && after.digest
                == frame.digest) && (kind != LayoutKind::Proposal ==> after.payload == sync.payload
                && after.digest == sync.digest) && (kind == LayoutKind::Role ==> after.direction
                == Some(
                if sync.has_proposal {
                    SyncDirection::Send
                } else {
                    SyncDirection::Receive
                },
            )) && (kind != LayoutKind::Role ==> after.direction == sync.direction)
        }),
{
}

/// What a side writes is a frame that may be written: its role with nothing else, its layout under
/// its digest, and otherwise the digest alone, each at its place in the order.
pub proof fn law_what_an_exchange_writes_is_valid(sync: SyncView, kind: LayoutKind)
    requires
        sync.digest == sha256(sync.payload),
        0 < sync.payload.len() <= MAX_LAYOUT_PAYLOAD_BYTES,
    ensures
        sync.outgoing(kind).is_valid(),
        sync.outgoing(kind).kind == kind,
        sync.outgoing(kind).epoch == sync.epoch,
        kind == LayoutKind::Proposal ==> sync.outgoing(kind).payload == sync.payload,
        kind != LayoutKind::Role ==> sync.outgoing(kind).digest == sync.digest,
        kind == LayoutKind::Role ==> (sync.outgoing(kind).role == Some(LayoutRole::Sender)
            <==> sync.has_proposal),
{
}

/// A frame that reads at all is one of a real session whose header announces its payload's length; a
/// payload comes with a proposal alone, and is the one its digest names; a role comes with a role
/// frame alone.
pub proof fn law_what_a_read_layout_carries(version: u16, header: Seq<u8>, payload: Seq<u8>)
    requires
        decoded_layout(version, header, payload) is Some,
    ensures
        ({
            let frame = decoded_layout(version, header, payload)->0;
            &&& frame.payload == payload
            &&& payload.len() == announced_length(header)
            &&& payload.len() <= MAX_LAYOUT_PAYLOAD_BYTES
            &&& frame.epoch.wf()
            &&& frame.kind == LayoutKind::Proposal <==> payload.len() > 0
            &&& frame.kind == LayoutKind::Proposal ==> frame.digest == sha256(payload)
            &&& frame.kind == LayoutKind::Role <==> frame.role is Some
            &&& frame.kind == LayoutKind::Role ==> frame.digest == no_digest()
        }),
{
}

/// An exchange that completed in time proceeds, and one that failed is undone and reported: as
/// incomplete where the deadline passed, as cancelled where the action was revoked, and as it failed
/// otherwise. After it, only a passed deadline undoes what was stored.
pub proof fn law_how_an_exchange_is_judged(
    exchange: Exchange,
    is_revoked: bool,
    deadline_expired: bool,
)
    ensures
        exchange_verdict(exchange, is_revoked, deadline_expired) == ExchangeVerdict::Proceed
            <==> exchange == Exchange::Completed && !deadline_expired,
        exchange matches Exchange::Failed(error) ==> !deadline_expired ==> exchange_verdict(
            exchange,
            is_revoked,
            deadline_expired,
        ) == ExchangeVerdict::AbortAndClose(
            if is_revoked {
                SetupFailure::Cancelled
            } else {
                error
            },
        ),
        exchange == Exchange::TimedOut && !deadline_expired ==> exchange_verdict(
            exchange,
            is_revoked,
            deadline_expired,
        ) == ExchangeVerdict::AbortAndClose(
            if is_revoked {
                SetupFailure::Cancelled
            } else {
                SetupFailure::LayoutSyncIncomplete
            },
        ),
        standing_verdict(is_revoked, deadline_expired) == ExchangeVerdict::Proceed <==> !is_revoked
            && !deadline_expired,
        is_revoked && !deadline_expired ==> standing_verdict(is_revoked, deadline_expired)
            == ExchangeVerdict::Fail(SetupFailure::Cancelled),
{
}

/// The bytes of a frame name its kind and its role by their numbers, each at its place, and no role
/// by zero.
pub proof fn law_layout_frames_name_their_kind(version: u16, frame: LayoutView)
    requires
        frame.digest.len() == 32,
    ensures
        frame.bytes(version)[7] == CONFIGURE_PURPOSE,
        frame.bytes(version)[8] == (match frame.kind {
            LayoutKind::Role => 1u8,
            LayoutKind::Proposal => 2,
            LayoutKind::Acknowledgement => 3,
            LayoutKind::Complete => 4,
        }),
        frame.bytes(version)[9] == (match frame.role {
            None => 0u8,
            Some(LayoutRole::Sender) => 1,
            Some(LayoutRole::Waiting) => 2,
        }),
{
    law_a_header_has_its_fields_in_place(
        version,
        CONFIGURE_PURPOSE,
        frame.envelope(),
        frame.payload.len(),
    );
}

} // verus!
