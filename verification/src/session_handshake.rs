//! Bilateral session negotiation on an already-authenticated QUIC connection.
//!
//! This module never creates sockets, changes trust, or enables native input. It only binds the
//! protocol identity to the established TLS peer and exchanges the three control frames required
//! before a caller may create an input sender or receiver.

use crate::bytes::{first_16, from_be, precedes, read_be};
use crate::crypto::{sha256, CertificateFingerprint, DeviceIdentity, VerifiedPeer};
use crate::protocol::{
    Capabilities, ControlPermissions, DeliveryClass, DeviceId, DisplayDescription, DisplayTopology,
    Frame, FrameScope, Hello, Message, Platform, SessionEpoch, SessionPurpose, SessionSetup,
};
use crate::session::scopes_of;
use crate::time::Duration;
use vstd::prelude::*;

verus! {

/// Bounds the entire control exchange, stream creation and all six frame operations: 500 ms.
pub const HANDSHAKE_DEADLINE: Duration = 500_000_000;

/// A purpose, control or hello disagreement is symmetric, so the peer reaches the same verdict
/// from our frames; closing before it acknowledges them strands it on [`HandshakeError::Stream`].
/// Bounded by this grace of 150 ms and by the handshake deadline, whichever comes first.
pub const DISAGREEMENT_ACK_GRACE: Duration = 150_000_000;

pub const HANDSHAKE_CLOSE_CODE: u32 = 2;

pub const HANDSHAKE_CLOSE_REASON: &'static str = "session handshake failed";

pub const EPOCH_EXPORT_LABEL: &'static str = "monhop/session-epoch/v2";

pub const EPOCH_EXPORT_CONTEXT: &'static str = "authenticated-session";

pub const HANDSHAKE_FRAME_COUNT: usize = 3;

/// Stable, non-authoritative device identifier derived from the first 16 bytes of a full
/// SHA-256 certificate fingerprint. The full 32-byte fingerprint remains the trust binding.
pub fn device_id_from_fingerprint(fingerprint: CertificateFingerprint) -> (id: DeviceId)
    ensures
        id.0@ == fingerprint@.subrange(0, 16),
{
    DeviceId(first_16(fingerprint.as_bytes()))
}

/// What the protocol says of the values that a configuration holds.
#[derive(Clone, Copy, Debug, PartialEq, Eq, Structural)]
pub struct ProtocolVerdicts {
    pub local_capabilities: bool,
    pub expected_peer_capabilities: bool,
    pub local_topology: bool,
    pub control: bool,
}

/// Locally authorized peer expectations and directional control permissions.
pub struct HandshakeConfig<'a> {
    local_identity: &'a DeviceIdentity,
    expected_peer: &'a VerifiedPeer,
    local_platform: Platform,
    expected_peer_platform: Platform,
    local_capabilities: Capabilities,
    expected_peer_capabilities: Capabilities,
    local_topology: &'a DisplayTopology,
    control: ControlPermissions,
    purpose: SessionPurpose,
    protocol_version: u16,
    verdicts: ProtocolVerdicts,
}

/// What one side says of itself and expects of the other.
#[verifier::ext_equal]
pub struct ConfigView {
    /// The fingerprint of the local certificate.
    pub local: Seq<u8>,
    /// The fingerprint that the peer is pinned to.
    pub peer: Seq<u8>,
    pub local_platform: Platform,
    pub expected_peer_platform: Platform,
    pub local_capabilities: Capabilities,
    pub expected_peer_capabilities: Capabilities,
    pub local_topology: Seq<DisplayDescription>,
    pub control: ControlPermissions,
    pub purpose: SessionPurpose,
    pub protocol_version: u16,
    pub verdicts: ProtocolVerdicts,
}

/// The device that a fingerprint names.
pub open spec fn device_of(fingerprint: Seq<u8>) -> Seq<u8> {
    fingerprint.subrange(0, 16)
}

impl ConfigView {
    pub open spec fn is_valid(self) -> bool {
        &&& self.verdicts.local_capabilities
        &&& self.verdicts.expected_peer_capabilities
        &&& self.verdicts.local_topology
        &&& self.verdicts.control
        &&& device_of(self.local) != device_of(self.peer)
        &&& self.purpose == SessionPurpose::Setup ==> self.control.is_both()
    }
}

impl View for HandshakeConfig<'_> {
    type V = ConfigView;

    closed spec fn view(&self) -> ConfigView {
        ConfigView {
            local: sha256(self.local_identity.certificate()),
            peer: self.expected_peer.pinned(),
            local_platform: self.local_platform,
            expected_peer_platform: self.expected_peer_platform,
            local_capabilities: self.local_capabilities,
            expected_peer_capabilities: self.expected_peer_capabilities,
            local_topology: self.local_topology@,
            control: self.control,
            purpose: self.purpose,
            protocol_version: self.protocol_version,
            verdicts: self.verdicts,
        }
    }
}

impl<'a> HandshakeConfig<'a> {
    pub fn new(
        local_identity: &'a DeviceIdentity,
        expected_peer: &'a VerifiedPeer,
        local_platform: Platform,
        expected_peer_platform: Platform,
        local_capabilities: Capabilities,
        expected_peer_capabilities: Capabilities,
        local_topology: &'a DisplayTopology,
        control: ControlPermissions,
        purpose: SessionPurpose,
        protocol_version: u16,
        verdicts: ProtocolVerdicts,
    ) -> (config: Result<HandshakeConfig<'a>, HandshakeError>)
        ensures
            ({
                let view = ConfigView {
                    local: sha256(local_identity.certificate()),
                    peer: expected_peer.pinned(),
                    local_platform,
                    expected_peer_platform,
                    local_capabilities,
                    expected_peer_capabilities,
                    local_topology: local_topology@,
                    control,
                    purpose,
                    protocol_version,
                    verdicts,
                };
                match config {
                    Ok(made) => view.is_valid() && made@ == view,
                    Err(error) => !view.is_valid() && error == HandshakeError::InvalidConfiguration,
                }
            }),
    {
        let config = HandshakeConfig {
            local_identity,
            expected_peer,
            local_platform,
            expected_peer_platform,
            local_capabilities,
            expected_peer_capabilities,
            local_topology,
            control,
            purpose,
            protocol_version,
            verdicts,
        };
        match config.validate() {
            Ok(()) => Ok(config),
            Err(error) => Err(error),
        }
    }

    pub fn local_device_id(&self) -> (id: DeviceId)
        ensures
            id.0@ == device_of(self@.local),
    {
        device_id_from_fingerprint(self.local_identity.fingerprint())
    }

    pub fn expected_peer_device_id(&self) -> (id: DeviceId)
        ensures
            id.0@ == device_of(self@.peer),
    {
        device_id_from_fingerprint(self.expected_peer.fingerprint())
    }

    pub fn permissions(&self) -> (control: ControlPermissions)
        ensures
            control == self@.control,
    {
        self.control
    }

    pub fn purpose(&self) -> (purpose: SessionPurpose)
        ensures
            purpose == self@.purpose,
    {
        self.purpose
    }

    fn validate(&self) -> (result: Result<(), HandshakeError>)
        ensures
            result == (if self@.is_valid() {
                Ok::<(), HandshakeError>(())
            } else {
                Err::<(), HandshakeError>(HandshakeError::InvalidConfiguration)
            }),
    {
        if !self.verdicts.local_capabilities || !self.verdicts.expected_peer_capabilities
            || !self.verdicts.local_topology {
            return Err(HandshakeError::InvalidConfiguration);
        }
        let local = self.local_device_id();
        let peer = self.expected_peer_device_id();
        let both = self.control.lower_controls_higher && self.control.higher_controls_lower;
        if local.same(&peer) || !self.verdicts.control || (self.purpose == SessionPurpose::Setup
            && !both) {
            return Err(HandshakeError::InvalidConfiguration);
        }
        Ok(())
    }

    /// The message at `place` of the three that this side proposes.
    fn proposed(&self, place: usize) -> (message: Message)
        requires
            place < 3,
        ensures
            same_message(message, proposal_message(self@, place as int)),
    {
        match place {
            0 => Message::Hello(
                Hello {
                    device_id: self.local_device_id(),
                    platform: self.local_platform,
                    protocol_version: self.protocol_version,
                    capabilities: self.local_capabilities,
                },
            ),
            1 => Message::DisplayTopology(self.local_topology.duplicate()),
            _ => Message::SessionSetup(
                SessionSetup { control: self.control, purpose: self.purpose },
            ),
        }
    }
}

/// What a handshake message says.
pub enum HandshakeMessage {
    Hello {
        device: Seq<u8>,
        platform: Platform,
        protocol_version: u16,
        capabilities: Capabilities,
    },
    Topology(Seq<DisplayDescription>),
    Setup(SessionSetup),
    /// A message that has no place in a handshake.
    Foreign,
}

/// What a message says in a handshake.
pub open spec fn handshake_message(message: Message) -> HandshakeMessage {
    match message {
        Message::Hello(hello) => HandshakeMessage::Hello {
            device: hello.device_id.0@,
            platform: hello.platform,
            protocol_version: hello.protocol_version,
            capabilities: hello.capabilities,
        },
        Message::DisplayTopology(topology) => HandshakeMessage::Topology(topology@),
        Message::SessionSetup(setup) => HandshakeMessage::Setup(setup),
        _ => HandshakeMessage::Foreign,
    }
}

pub open spec fn same_message(message: Message, expected: HandshakeMessage) -> bool {
    handshake_message(message) == expected
}

/// The message at `place` of the three that a side proposes.
pub open spec fn proposal_message(config: ConfigView, place: int) -> HandshakeMessage {
    if place == 0 {
        HandshakeMessage::Hello {
            device: device_of(config.local),
            platform: config.local_platform,
            protocol_version: config.protocol_version,
            capabilities: config.local_capabilities,
        }
    } else if place == 1 {
        HandshakeMessage::Topology(config.local_topology)
    } else {
        HandshakeMessage::Setup(SessionSetup { control: config.control, purpose: config.purpose })
    }
}

/// A frame of the three that a side proposes.
pub struct ProposalFrame {
    pub scope: FrameScope,
    pub epoch: SessionEpoch,
    pub sequence: u64,
    pub delivery: DeliveryClass,
    pub message: HandshakeMessage,
}

pub open spec fn frame_view(frame: Frame) -> ProposalFrame {
    ProposalFrame {
        scope: frame.scope,
        epoch: frame.epoch,
        sequence: frame.sequence,
        delivery: frame.delivery,
        message: handshake_message(frame.message),
    }
}

/// The frames that a side proposes under an epoch.
pub open spec fn proposal(config: ConfigView, epoch: SessionEpoch) -> Seq<ProposalFrame> {
    Seq::new(
        3,
        |place: int|
            ProposalFrame {
                scope: FrameScope::Connection,
                epoch,
                sequence: place as u64,
                delivery: DeliveryClass::Reliable,
                message: proposal_message(config, place),
            },
    )
}

/// Public peer facts validated by the completed bilateral exchange.
#[derive(Debug)]
pub struct NegotiatedPeer {
    pub device_id: DeviceId,
    pub platform: Platform,
    pub capabilities: Capabilities,
    pub topology: DisplayTopology,
}

/// The exact continuation for the control stream after negotiation.
///
/// Control Ping/Pong frames retain the exporter-derived initial epoch. Input activation uses
/// [`InputEpochContinuation`] with independent epoch and sequence state on the ordered stream.
#[derive(Clone, Copy, Debug, PartialEq, Eq, Structural)]
pub struct ControlContinuation {
    pub epoch: SessionEpoch,
    pub next_sequence: u64,
}

impl ControlContinuation {
    pub fn epoch(self) -> (epoch: SessionEpoch)
        ensures
            epoch == self.epoch,
    {
        self.epoch
    }

    pub fn next_sequence(self) -> (sequence: u64)
        ensures
            sequence == self.next_sequence,
    {
        self.next_sequence
    }

    /// Creates the next baseline-epoch control frame and advances its ordered sequence once.
    pub fn next_heartbeat(&mut self, message: Message) -> (frame: Result<Frame, ContinuationError>)
        ensures
            final(self).epoch == old(self).epoch,
            match frame {
                Ok(made) => message.is_heartbeat_message() && old(self).next_sequence < u64::MAX
                    && made == (Frame {
                    scope: FrameScope::Connection,
                    epoch: old(self).epoch,
                    sequence: old(self).next_sequence,
                    delivery: DeliveryClass::Reliable,
                    message,
                }) && final(self).next_sequence == old(self).next_sequence + 1,
                Err(ContinuationError::NotHeartbeat) => !message.is_heartbeat_message() && *final(self) == *old(self),
                Err(ContinuationError::SequenceExhausted) => message.is_heartbeat_message() && old(self).next_sequence == u64::MAX && *final(self) == *old(self),
                Err(ContinuationError::EpochExhausted) => false,
            },
    {
        if !message.is_heartbeat() {
            return Err(ContinuationError::NotHeartbeat);
        }
        if self.next_sequence == u64::MAX {
            return Err(ContinuationError::SequenceExhausted);
        }
        let frame = Frame::new(self.epoch, self.next_sequence, message);
        self.next_sequence = self.next_sequence + 1;
        Ok(frame)
    }
}

/// Coherently advances input activation epochs from the negotiated baseline.
#[derive(Clone, Copy, Debug, PartialEq, Eq, Structural)]
pub struct InputEpochContinuation {
    pub active_epoch: SessionEpoch,
}

impl InputEpochContinuation {
    pub fn active_epoch(self) -> (epoch: SessionEpoch)
        ensures
            epoch == self.active_epoch,
    {
        self.active_epoch
    }

    /// Returns the next activation epoch, beginning at `initial_epoch + 1`.
    pub fn begin_activation(&mut self) -> (epoch: Result<SessionEpoch, ContinuationError>)
        ensures
            match epoch {
                Ok(next) => next.value == old(self).active_epoch.value + 1 && final(self).active_epoch == next && next.wf(),
                Err(error) => old(self).active_epoch.value == u64::MAX && error
                    == ContinuationError::EpochExhausted && *final(self) == *old(self),
            },
    {
        if self.active_epoch.value == u64::MAX {
            return Err(ContinuationError::EpochExhausted);
        }
        match SessionEpoch::new(self.active_epoch.value + 1) {
            Some(epoch) => {
                self.active_epoch = epoch;
                Ok(epoch)
            },
            None => Err(ContinuationError::EpochExhausted),
        }
    }
}

#[derive(Clone, Copy, Debug, PartialEq, Eq, Structural)]
pub enum ContinuationError {
    NotHeartbeat,
    SequenceExhausted,
    EpochExhausted,
}

impl ContinuationError {
    pub open spec fn text(self) -> Seq<char> {
        match self {
            ContinuationError::NotHeartbeat =>
                "control continuation only creates Ping or Pong frames"@,
            ContinuationError::SequenceExhausted => "reliable sequence is exhausted"@,
            ContinuationError::EpochExhausted => "transition epoch is exhausted"@,
        }
    }

    /// The text shown to a user.
    pub fn message(&self) -> (message: &'static str)
        ensures
            message@ == self.text(),
    {
        match self {
            ContinuationError::NotHeartbeat =>
                "control continuation only creates Ping or Pong frames",
            ContinuationError::SequenceExhausted => "reliable sequence is exhausted",
            ContinuationError::EpochExhausted => "transition epoch is exhausted",
        }
    }
}

/// What both sides agreed on, beside the connection that carries it.
pub struct NegotiatedSession {
    pub permissions: ControlPermissions,
    pub peer: NegotiatedPeer,
    pub local: NegotiatedPeer,
    pub agreed_purpose: SessionPurpose,
    pub initial_epoch: SessionEpoch,
    pub control: ControlContinuation,
    pub input_epochs: InputEpochContinuation,
}

impl NegotiatedSession {
    /// Whether the local computer is the lower one of the pair.
    pub open spec fn is_lower(&self) -> bool {
        precedes(self.local.device_id.0@, self.peer.device_id.0@)
    }

    pub fn outbound_scope(&self) -> (scope: FrameScope)
        ensures
            scope == scopes_of(self.is_lower()).outbound,
    {
        if self.local.device_id.is_lower_than(&self.peer.device_id) {
            FrameScope::LowerControlsHigher
        } else {
            FrameScope::HigherControlsLower
        }
    }

    pub fn inbound_scope(&self) -> (scope: FrameScope)
        ensures
            scope == scopes_of(self.is_lower()).inbound,
    {
        match self.outbound_scope() {
            FrameScope::LowerControlsHigher => FrameScope::HigherControlsLower,
            _ => FrameScope::LowerControlsHigher,
        }
    }

    /// Returns the purpose authenticated by both peers during setup.
    pub fn purpose(&self) -> (purpose: SessionPurpose)
        ensures
            purpose == self.agreed_purpose,
    {
        self.agreed_purpose
    }
}

#[derive(Clone, Copy, Debug, PartialEq, Eq, Structural)]
pub enum HandshakeError {
    InvalidConfiguration,
    TimedOut,
    Stream,
    PeerIdentityUnavailable,
    PeerCertificateMismatch,
    EpochDerivation,
    InvalidFrame,
    UnexpectedFrame,
    PeerHelloMismatch,
    ControlMismatch,
    PurposeMismatch,
}

impl HandshakeError {
    pub open spec fn text(self) -> Seq<char> {
        match self {
            HandshakeError::InvalidConfiguration => "session handshake configuration is invalid"@,
            HandshakeError::TimedOut => "session handshake exceeded its deadline"@,
            HandshakeError::Stream => "session handshake stream operation failed"@,
            HandshakeError::PeerIdentityUnavailable => "session peer certificate is unavailable"@,
            HandshakeError::PeerCertificateMismatch =>
                "session peer certificate does not match the pin"@,
            HandshakeError::EpochDerivation => "session epoch could not be derived"@,
            HandshakeError::InvalidFrame => "session handshake frame is invalid"@,
            HandshakeError::UnexpectedFrame =>
                "session handshake frame is out of order or unexpected"@,
            HandshakeError::PeerHelloMismatch =>
                "session peer hello does not match the negotiated policy"@,
            HandshakeError::ControlMismatch => "session peer chose different control permissions"@,
            HandshakeError::PurposeMismatch => "session peer chose a different session purpose"@,
        }
    }

    /// The text shown to a user.
    pub fn message(&self) -> (message: &'static str)
        ensures
            message@ == self.text(),
    {
        match self {
            HandshakeError::InvalidConfiguration => "session handshake configuration is invalid",
            HandshakeError::TimedOut => "session handshake exceeded its deadline",
            HandshakeError::Stream => "session handshake stream operation failed",
            HandshakeError::PeerIdentityUnavailable => "session peer certificate is unavailable",
            HandshakeError::PeerCertificateMismatch =>
                "session peer certificate does not match the pin",
            HandshakeError::EpochDerivation => "session epoch could not be derived",
            HandshakeError::InvalidFrame => "session handshake frame is invalid",
            HandshakeError::UnexpectedFrame =>
                "session handshake frame is out of order or unexpected",
            HandshakeError::PeerHelloMismatch =>
                "session peer hello does not match the negotiated policy",
            HandshakeError::ControlMismatch => "session peer chose different control permissions",
            HandshakeError::PurposeMismatch => "session peer chose a different session purpose",
        }
    }

    /// Both sides reach the same verdict from each other's frames.
    pub open spec fn is_disagreement(self) -> bool {
        ||| self == HandshakeError::PurposeMismatch
        ||| self == HandshakeError::ControlMismatch
        ||| self == HandshakeError::PeerHelloMismatch
    }
}

/// How a failed negotiation ends.
#[derive(Clone, Copy, Debug, PartialEq, Eq, Structural)]
pub enum Ending {
    /// Wait, bounded, until the peer has the frames that let it name the same disagreement.
    AcknowledgeThenClose(HandshakeError),
    Close(HandshakeError),
}

/// How a negotiation ends after an error.
///
/// Only a disagreement waits, and only to let the peer name the same one; a bad certificate, an
/// invalid frame, or a timeout still closes at once. A hello mismatch is a disagreement too,
/// whether two builds announced different platforms or features or a frame arrived on another
/// protocol version: a computer that closed first would leave the other a reset stream, which
/// reads as transient, so it keeps dialing instead of being told which build to install.
pub fn ending(error: HandshakeError) -> (ending: Ending)
    ensures
        ending == (if error.is_disagreement() {
            Ending::AcknowledgeThenClose(error)
        } else {
            Ending::Close(error)
        }),
{
    match error {
        HandshakeError::PurposeMismatch
        | HandshakeError::ControlMismatch
        | HandshakeError::PeerHelloMismatch => Ending::AcknowledgeThenClose(error),
        _ => Ending::Close(error),
    }
}

/// Until when a disagreement waits for the peer's acknowledgement.
pub fn acknowledgement_deadline(now: Duration, deadline: Duration) -> (until: Duration)
    requires
        now + DISAGREEMENT_ACK_GRACE <= u128::MAX,
    ensures
        until == (if now + DISAGREEMENT_ACK_GRACE < deadline {
            (now + DISAGREEMENT_ACK_GRACE) as u128
        } else {
            deadline
        }),
{
    let grace: Duration = now + DISAGREEMENT_ACK_GRACE;
    if grace < deadline {
        grace
    } else {
        deadline
    }
}

/// The identity that a connection's peer presented: exactly one certificate.
pub open spec fn presented(certificates: Option<Seq<Vec<u8>>>) -> Option<Seq<u8>> {
    match certificates {
        Some(chain) => if chain.len() == 1 {
            Some(sha256(chain[0]@))
        } else {
            None
        },
        None => None,
    }
}

pub fn observed_peer_fingerprint(certificates: Option<&Vec<Vec<u8>>>) -> (fingerprint: Result<
    CertificateFingerprint,
    HandshakeError,
>)
    ensures
        match presented(
            match certificates {
                Some(chain) => Some(chain@),
                None => None,
            },
        ) {
            Some(identity) => fingerprint matches Ok(observed) && observed@ == identity,
            None => fingerprint == Err::<CertificateFingerprint, _>(
                HandshakeError::PeerIdentityUnavailable,
            ),
        },
{
    match certificates {
        Some(chain) => if chain.len() == 1 {
            Ok(CertificateFingerprint::from_certificate_der(chain[0].as_slice()))
        } else {
            Err(HandshakeError::PeerIdentityUnavailable)
        },
        None => Err(HandshakeError::PeerIdentityUnavailable),
    }
}

/// The epoch that exported key material gives: not zero, and with room for an activation.
pub open spec fn exported_epoch(exported: Option<Seq<u8>>) -> Option<SessionEpoch> {
    match exported {
        Some(bytes) => if from_be(bytes) == 0 || from_be(bytes) == u64::MAX {
            None
        } else {
            Some(SessionEpoch { value: from_be(bytes) as u64 })
        },
        None => None,
    }
}

pub fn derive_epoch(exported: Option<[u8; 8]>) -> (epoch: Result<SessionEpoch, HandshakeError>)
    ensures
        match exported_epoch(
            match exported {
                Some(bytes) => Some(bytes@),
                None => None,
            },
        ) {
            Some(derived) => epoch == Ok::<_, HandshakeError>(derived) && derived.wf()
                && derived.value < u64::MAX,
            None => epoch == Err::<SessionEpoch, _>(HandshakeError::EpochDerivation),
        },
{
    match exported {
        Some(bytes) => {
            assert(bytes@.subrange(0, 8) =~= bytes@);
            let value: u64 = read_be(&bytes, 0, 8);
            match SessionEpoch::new(value) {
                // The first input activation must advance from this baseline.
                Some(epoch) => if value != u64::MAX {
                    Ok(epoch)
                } else {
                    Err(HandshakeError::EpochDerivation)
                },
                None => Err(HandshakeError::EpochDerivation),
            }
        },
        None => Err(HandshakeError::EpochDerivation),
    }
}

/// This side's part of a negotiation: the frames it writes first.
pub struct Proposal {
    pub observed: CertificateFingerprint,
    pub epoch: SessionEpoch,
    pub written: usize,
}

/// Begins a negotiation on a connection that presented `certificates` and exported `exported`.
pub fn begin_negotiation(
    config: &HandshakeConfig<'_>,
    certificates: Option<&Vec<Vec<u8>>>,
    exported: Option<[u8; 8]>,
) -> (begun: Result<Proposal, HandshakeError>)
    ensures
        ({
            let identity = presented(
                match certificates {
                    Some(chain) => Some(chain@),
                    None => None,
                },
            );
            let epoch = exported_epoch(
                match exported {
                    Some(bytes) => Some(bytes@),
                    None => None,
                },
            );
            if !config@.is_valid() {
                begun == Err::<Proposal, _>(HandshakeError::InvalidConfiguration)
            } else if identity is None {
                begun == Err::<Proposal, _>(HandshakeError::PeerIdentityUnavailable)
            } else if epoch is None {
                begun == Err::<Proposal, _>(HandshakeError::EpochDerivation)
            } else {
                begun matches Ok(proposal) && proposal.observed@ == identity->0 && proposal.epoch
                    == epoch->0 && proposal.written == 0
            }
        }),
{
    if let Err(error) = config.validate() {
        return Err(error);
    }
    let observed = match observed_peer_fingerprint(certificates) {
        Ok(observed) => observed,
        Err(error) => return Err(error),
    };
    let epoch = match derive_epoch(exported) {
        Ok(epoch) => epoch,
        Err(error) => return Err(error),
    };
    Ok(Proposal { observed, epoch, written: 0 })
}

impl Proposal {
    /// The next frame to write, as long as not all are written.
    pub fn next_frame(&self, config: &HandshakeConfig<'_>) -> (frame: Option<Frame>)
        ensures
            match frame {
                Some(next) => self.written < 3 && frame_view(next) == proposal(
                    config@,
                    self.epoch,
                )[self.written as int],
                None => self.written >= 3,
            },
    {
        if self.written < HANDSHAKE_FRAME_COUNT {
            Some(Frame::new(self.epoch, self.written as u64, config.proposed(self.written)))
        } else {
            None
        }
    }

    /// Notes that the next frame was written.
    pub fn wrote(&mut self, result: Result<(), SessionWireError>) -> (noted: Result<
        (),
        HandshakeError,
    >)
        requires
            old(self).written < 3,
        ensures
            match result {
                Ok(()) => noted == Ok::<(), HandshakeError>(()) && *final(self) == (Proposal {
                    written: (old(self).written + 1) as usize,
                    ..*old(self)
                }),
                Err(error) => noted == Err::<(), _>(wire_verdict(error)) && *final(self) == *old(self),
            },
    {
        match result {
            Ok(()) => {
                self.written = self.written + 1;
                Ok(())
            },
            Err(error) => Err(map_wire_error(error)),
        }
    }

    /// Goes on to the peer's stream, once it is there.
    pub fn accepted(self, is_open: bool) -> (answer: Result<Answer, HandshakeError>)
        ensures
            match answer {
                Ok(begun) => is_open && begun.observed == self.observed && begun.epoch == self.epoch
                    && begun.frames@.len() == 0,
                Err(error) => !is_open && error == HandshakeError::Stream,
            },
    {
        if !is_open {
            return Err(HandshakeError::Stream);
        }
        Ok(Answer { observed: self.observed, epoch: self.epoch, frames: Vec::new() })
    }
}

/// The peer's part of a negotiation: the frames it wrote.
pub struct Answer {
    pub observed: CertificateFingerprint,
    pub epoch: SessionEpoch,
    pub frames: Vec<Frame>,
}

impl Answer {
    pub fn is_complete(&self) -> (complete: bool)
        ensures
            complete == (self.frames@.len() == 3),
    {
        self.frames.len() == HANDSHAKE_FRAME_COUNT
    }

    /// Notes the next frame that was read.
    pub fn read(&mut self, result: Result<Frame, SessionWireError>) -> (noted: Result<
        (),
        HandshakeError,
    >)
        ensures
            final(self).observed == old(self).observed,
            final(self).epoch == old(self).epoch,
            match result {
                Ok(frame) => noted == Ok::<(), HandshakeError>(()) && final(self).frames@ == old(self).frames@.push(frame),
                Err(error) => noted == Err::<(), _>(wire_verdict(error)) && final(self).frames@
                    == old(self).frames@,
            },
    {
        match result {
            Ok(frame) => {
                self.frames.push(frame);
                Ok(())
            },
            Err(error) => Err(map_wire_error(error)),
        }
    }

    /// The agreed session, or the error with which the peer's frames are refused.
    /// `topology_is_valid` says whether the protocol admits the peer's displays.
    pub fn conclude(&self, config: &HandshakeConfig<'_>, topology_is_valid: bool) -> (session: Result<
        NegotiatedSession,
        HandshakeError,
    >)
        requires
            self.frames@.len() == 3,
        ensures
            ({
                let frames = self.frames@.map_values(|frame: Frame| frame_view(frame));
                match peer_error(config@, self.observed@, self.epoch, frames, topology_is_valid) {
                    Some(error) => session == Err::<NegotiatedSession, _>(error),
                    None => session matches Ok(agreed) && agreed_peer(frames, agreed.peer)
                        && session_of(config@, self.epoch, agreed),
                }
            }),
    {
        let peer = match validate_peer_handshake(
            config,
            self.observed,
            self.epoch,
            self.frames.as_slice(),
            topology_is_valid,
        ) {
            Ok(peer) => peer,
            Err(error) => return Err(error),
        };
        Ok(
            NegotiatedSession {
                permissions: config.control,
                peer,
                local: NegotiatedPeer {
                    device_id: config.local_device_id(),
                    platform: config.local_platform,
                    capabilities: config.local_capabilities,
                    topology: config.local_topology.duplicate(),
                },
                agreed_purpose: config.purpose,
                initial_epoch: self.epoch,
                control: ControlContinuation {
                    epoch: self.epoch,
                    next_sequence: HANDSHAKE_FRAME_COUNT as u64,
                },
                input_epochs: InputEpochContinuation { active_epoch: self.epoch },
            },
        )
    }
}

/// The session that follows from a configuration and an epoch, whoever the peer is.
pub open spec fn session_of(
    config: ConfigView,
    epoch: SessionEpoch,
    session: NegotiatedSession,
) -> bool {
    &&& session.permissions == config.control
    &&& session.local.device_id.0@ == device_of(config.local)
    &&& session.local.platform == config.local_platform
    &&& session.local.capabilities == config.local_capabilities
    &&& session.local.topology@ == config.local_topology
    &&& session.agreed_purpose == config.purpose
    &&& session.initial_epoch == epoch
    &&& session.control == (ControlContinuation { epoch, next_sequence: 3 })
    &&& session.input_epochs == (InputEpochContinuation { active_epoch: epoch })
}

/// The first fault of the frames from `place` on, apart from what they say.
pub open spec fn envelope_error(
    epoch: SessionEpoch,
    frames: Seq<ProposalFrame>,
    place: int,
) -> Option<HandshakeError>
    decreases frames.len() - place,
{
    if place >= frames.len() || place < 0 {
        None
    } else if frames[place].scope != FrameScope::Connection || frames[place].epoch != epoch
        || frames[place].sequence != place {
        Some(HandshakeError::InvalidFrame)
    } else if frames[place].delivery != DeliveryClass::Reliable {
        Some(HandshakeError::UnexpectedFrame)
    } else {
        envelope_error(epoch, frames, place + 1)
    }
}

/// The fault of what the peer's three frames say.
pub open spec fn content_error(
    config: ConfigView,
    frames: Seq<ProposalFrame>,
    topology_is_valid: bool,
) -> Option<HandshakeError> {
    match frames[0].message {
        HandshakeMessage::Hello { device, platform, protocol_version, capabilities } => {
            if protocol_version != config.protocol_version || device != device_of(config.peer)
                || platform != config.expected_peer_platform || capabilities
                != config.expected_peer_capabilities {
                Some(HandshakeError::PeerHelloMismatch)
            } else if !(frames[1].message is Topology) {
                Some(HandshakeError::UnexpectedFrame)
            } else if !topology_is_valid {
                Some(HandshakeError::InvalidFrame)
            } else {
                match frames[2].message {
                    HandshakeMessage::Setup(setup) => if setup.purpose != config.purpose {
                        Some(HandshakeError::PurposeMismatch)
                    } else if setup.control != config.control {
                        Some(HandshakeError::ControlMismatch)
                    } else {
                        None
                    },
                    _ => Some(HandshakeError::UnexpectedFrame),
                }
            }
        },
        _ => Some(HandshakeError::UnexpectedFrame),
    }
}

/// Why the peer's frames are refused.
pub open spec fn peer_error(
    config: ConfigView,
    observed: Seq<u8>,
    epoch: SessionEpoch,
    frames: Seq<ProposalFrame>,
    topology_is_valid: bool,
) -> Option<HandshakeError> {
    if observed != config.peer {
        Some(HandshakeError::PeerCertificateMismatch)
    } else if envelope_error(epoch, frames, 0) is Some {
        envelope_error(epoch, frames, 0)
    } else {
        content_error(config, frames, topology_is_valid)
    }
}

/// The facts of the peer are those its frames say.
pub open spec fn agreed_peer(frames: Seq<ProposalFrame>, peer: NegotiatedPeer) -> bool {
    match (frames[0].message, frames[1].message) {
        (
            HandshakeMessage::Hello { device, platform, protocol_version, capabilities },
            HandshakeMessage::Topology(topology),
        ) => peer.device_id.0@ == device && peer.platform == platform && peer.capabilities
            == capabilities && peer.topology@ == topology,
        _ => false,
    }
}

/// Validates the peer's complete three-frame proposal without performing I/O.
///
/// `observed_peer` must be the full fingerprint of the certificate presented by the authenticated
/// connection, never a claimed ID. `topology_is_valid` says whether the protocol admits the peer's
/// displays.
pub fn validate_peer_handshake(
    config: &HandshakeConfig<'_>,
    observed_peer: CertificateFingerprint,
    epoch: SessionEpoch,
    frames: &[Frame],
    topology_is_valid: bool,
) -> (peer: Result<NegotiatedPeer, HandshakeError>)
    requires
        frames@.len() == 3,
    ensures
        ({
            let views = frames@.map_values(|frame: Frame| frame_view(frame));
            match peer_error(config@, observed_peer@, epoch, views, topology_is_valid) {
                Some(error) => peer == Err::<NegotiatedPeer, _>(error),
                None => peer matches Ok(facts) && agreed_peer(views, facts),
            }
        }),
{
    let ghost views = frames@.map_values(|frame: Frame| frame_view(frame));
    if !observed_peer.same(&config.expected_peer.fingerprint()) {
        return Err(HandshakeError::PeerCertificateMismatch);
    }
    let mut place: usize = 0;
    while place < HANDSHAKE_FRAME_COUNT
        invariant
            place <= 3,
            frames@.len() == 3,
            views == frames@.map_values(|frame: Frame| frame_view(frame)),
            observed_peer@ == config@.peer,
            envelope_error(epoch, views, 0) == envelope_error(epoch, views, place as int),
        decreases 3 - place,
    {
        let frame = &frames[place];
        assert(views[place as int] == frame_view(*frame));
        if frame.scope != FrameScope::Connection || frame.epoch != epoch || frame.sequence
            != place as u64 {
            return Err(HandshakeError::InvalidFrame);
        }
        if frame.delivery != DeliveryClass::Reliable {
            return Err(HandshakeError::UnexpectedFrame);
        }
        place = place + 1;
    }
    assert(views[0] == frame_view(frames@[0]));
    assert(views[1] == frame_view(frames@[1]));
    assert(views[2] == frame_view(frames@[2]));
    let hello = match &frames[0].message {
        Message::Hello(hello) => hello,
        _ => return Err(HandshakeError::UnexpectedFrame),
    };
    if hello.protocol_version != config.protocol_version || !hello.device_id.same(
        &config.expected_peer_device_id(),
    ) || hello.platform != config.expected_peer_platform || hello.capabilities
        != config.expected_peer_capabilities {
        return Err(HandshakeError::PeerHelloMismatch);
    }
    let topology = match &frames[1].message {
        Message::DisplayTopology(topology) => topology,
        _ => return Err(HandshakeError::UnexpectedFrame),
    };
    if !topology_is_valid {
        return Err(HandshakeError::InvalidFrame);
    }
    let setup = match &frames[2].message {
        Message::SessionSetup(setup) => setup,
        _ => return Err(HandshakeError::UnexpectedFrame),
    };
    // A setup link meeting sharing is a step collision, not a saved-control disagreement.
    if setup.purpose != config.purpose {
        return Err(HandshakeError::PurposeMismatch);
    }
    if setup.control != config.control {
        return Err(HandshakeError::ControlMismatch);
    }
    Ok(
        NegotiatedPeer {
            device_id: hello.device_id,
            platform: hello.platform,
            capabilities: hello.capabilities,
            topology: topology.duplicate(),
        },
    )
}

/// How reading or writing a frame fails.
#[derive(Clone, Copy, Debug, PartialEq, Eq, Structural)]
pub enum SessionWireError {
    UnsupportedVersion,
    InvalidFrame,
    TooLarge,
    Truncated,
    Closed,
    Io,
    TimedOut,
    Terminal,
}

pub open spec fn wire_verdict(error: SessionWireError) -> HandshakeError {
    match error {
        SessionWireError::UnsupportedVersion => HandshakeError::PeerHelloMismatch,
        SessionWireError::InvalidFrame
        | SessionWireError::TooLarge
        | SessionWireError::Truncated => HandshakeError::InvalidFrame,
        SessionWireError::Closed
        | SessionWireError::Io
        | SessionWireError::TimedOut
        | SessionWireError::Terminal => HandshakeError::Stream,
    }
}

pub fn map_wire_error(error: SessionWireError) -> (verdict: HandshakeError)
    ensures
        verdict == wire_verdict(error),
{
    match error {
        SessionWireError::UnsupportedVersion => HandshakeError::PeerHelloMismatch,
        SessionWireError::InvalidFrame
        | SessionWireError::TooLarge
        | SessionWireError::Truncated => HandshakeError::InvalidFrame,
        SessionWireError::Closed
        | SessionWireError::Io
        | SessionWireError::TimedOut
        | SessionWireError::Terminal => HandshakeError::Stream,
    }
}

/// Each side is who the other expects, and each demands of the other the features it announces.
pub open spec fn mirrored(one: ConfigView, other: ConfigView) -> bool {
    &&& one.local == other.peer
    &&& one.peer == other.local
    &&& one.local_platform == other.expected_peer_platform
    &&& one.expected_peer_platform == other.local_platform
    &&& one.local_capabilities == one.expected_peer_capabilities
    &&& other.local_capabilities == other.expected_peer_capabilities
}

/// Two computers that meet over each other's frames come to the same end: both agree, or both
/// name the same disagreement. The purpose is named before the control permissions.
pub proof fn law_verdicts_are_symmetric(
    one: ConfigView,
    other: ConfigView,
    epoch: SessionEpoch,
)
    requires
        mirrored(one, other),
    ensures
        ({
            let mine = peer_error(one, other.local, epoch, proposal(other, epoch), true);
            let theirs = peer_error(other, one.local, epoch, proposal(one, epoch), true);
            &&& mine == theirs
            &&& mine matches Some(error) ==> error.is_disagreement()
            &&& mine == (if one.protocol_version != other.protocol_version
                || one.local_capabilities != other.local_capabilities {
                Some(HandshakeError::PeerHelloMismatch)
            } else if one.purpose != other.purpose {
                Some(HandshakeError::PurposeMismatch)
            } else if one.control != other.control {
                Some(HandshakeError::ControlMismatch)
            } else {
                None
            })
        }),
{
    lemma_proposals_are_well_formed(one, epoch);
    lemma_proposals_are_well_formed(other, epoch);
}

proof fn lemma_proposals_are_well_formed(config: ConfigView, epoch: SessionEpoch)
    ensures
        envelope_error(epoch, proposal(config, epoch), 0) is None,
{
    let frames = proposal(config, epoch);
    assert(frames.len() == 3);
    assert(envelope_error(epoch, frames, 3) is None);
    assert(envelope_error(epoch, frames, 2) is None);
    assert(envelope_error(epoch, frames, 1) is None);
    assert(envelope_error(epoch, frames, 0) is None);
}

/// The frame opens a connection of this session at its place in the order.
pub open spec fn is_in_order(frame: ProposalFrame, epoch: SessionEpoch, place: int) -> bool {
    &&& frame.scope == FrameScope::Connection
    &&& frame.epoch == epoch
    &&& frame.sequence == place
    &&& frame.delivery == DeliveryClass::Reliable
}

/// A peer's three frames are accepted exactly where the peer shows the pinned certificate, the frames
/// are in order, the hello is of this version and is the pinned device's with the expected platform
/// and capabilities, valid displays follow, and the setup is the one chosen here.
pub proof fn law_which_peers_are_agreed_with(
    config: ConfigView,
    observed: Seq<u8>,
    epoch: SessionEpoch,
    frames: Seq<ProposalFrame>,
    topology_is_valid: bool,
)
    requires
        frames.len() == 3,
    ensures
        peer_error(config, observed, epoch, frames, topology_is_valid) is None <==> {
            &&& observed == config.peer
            &&& is_in_order(frames[0], epoch, 0)
            &&& is_in_order(frames[1], epoch, 1)
            &&& is_in_order(frames[2], epoch, 2)
            &&& frames[0].message == (HandshakeMessage::Hello {
                device: device_of(config.peer),
                platform: config.expected_peer_platform,
                protocol_version: config.protocol_version,
                capabilities: config.expected_peer_capabilities,
            })
            &&& frames[1].message is Topology
            &&& topology_is_valid
            &&& frames[2].message == HandshakeMessage::Setup(
                SessionSetup { control: config.control, purpose: config.purpose },
            )
        },
{
    reveal_with_fuel(envelope_error, 4);
    if let HandshakeMessage::Setup(setup) = frames[2].message {
        assert(setup == (SessionSetup { control: setup.control, purpose: setup.purpose }));
    }
}

/// Another certificate is refused before anything is read of the frames, and frames out of order
/// before anything is read of what they say.
pub proof fn law_the_outer_fault_is_named_first(
    config: ConfigView,
    observed: Seq<u8>,
    epoch: SessionEpoch,
    frames: Seq<ProposalFrame>,
    topology_is_valid: bool,
)
    requires
        frames.len() == 3,
    ensures
        observed != config.peer <==> peer_error(
            config,
            observed,
            epoch,
            frames,
            topology_is_valid,
        ) == Some(HandshakeError::PeerCertificateMismatch),
        observed == config.peer && !(is_in_order(frames[0], epoch, 0) && is_in_order(
            frames[1],
            epoch,
            1,
        ) && is_in_order(frames[2], epoch, 2)) ==> {
            let error = peer_error(config, observed, epoch, frames, topology_is_valid);
            error == Some(HandshakeError::InvalidFrame) || error == Some(
                HandshakeError::UnexpectedFrame,
            )
        },
{
    reveal_with_fuel(envelope_error, 4);
}

/// The peer of an accepted answer is the pinned device with what was expected of it, and its
/// displays are those it sent.
pub proof fn law_an_agreed_peer_is_the_expected_one(
    config: ConfigView,
    observed: Seq<u8>,
    epoch: SessionEpoch,
    frames: Seq<ProposalFrame>,
    topology_is_valid: bool,
    peer: NegotiatedPeer,
)
    requires
        frames.len() == 3,
        peer_error(config, observed, epoch, frames, topology_is_valid) is None,
        agreed_peer(frames, peer),
    ensures
        peer.device_id.0@ == device_of(config.peer),
        peer.platform == config.expected_peer_platform,
        peer.capabilities == config.expected_peer_capabilities,
        frames[1].message == HandshakeMessage::Topology(peer.topology@),
{
    reveal_with_fuel(envelope_error, 4);
}

/// A proposal is three reliable frames of the session, numbered from zero: who this is, its displays,
/// and what it wants.
pub proof fn law_a_proposal_is_in_order(config: ConfigView, epoch: SessionEpoch)
    ensures
        ({
            let frames = proposal(config, epoch);
            &&& frames.len() == 3
            &&& is_in_order(frames[0], epoch, 0)
            &&& is_in_order(frames[1], epoch, 1)
            &&& is_in_order(frames[2], epoch, 2)
            &&& frames[0].message == (HandshakeMessage::Hello {
                device: config.local.subrange(0, 16),
                platform: config.local_platform,
                protocol_version: config.protocol_version,
                capabilities: config.local_capabilities,
            })
            &&& frames[1].message == HandshakeMessage::Topology(config.local_topology)
            &&& frames[2].message == HandshakeMessage::Setup(
                SessionSetup { control: config.control, purpose: config.purpose },
            )
        }),
{
}

/// A session goes on where its handshake ended: in its epoch, after the frames of the proposal, with
/// what was configured.
pub proof fn law_a_session_continues_its_handshake(
    config: ConfigView,
    epoch: SessionEpoch,
    session: NegotiatedSession,
)
    requires
        session_of(config, epoch, session),
    ensures
        session.control.next_sequence == proposal(config, epoch).len(),
        session.control.epoch == epoch,
        session.initial_epoch == epoch,
        session.input_epochs.active_epoch == epoch,
        session.agreed_purpose == config.purpose,
        session.permissions == config.control,
        session.local.device_id.0@ == config.local.subrange(0, 16),
{
}

/// An epoch is the exported number, and every number is one but zero and the largest.
pub proof fn law_which_epochs_are_derived(exported: Option<Seq<u8>>)
    ensures
        exported_epoch(exported) is Some <==> exported is Some && from_be(exported->0) != 0
            && from_be(exported->0) != u64::MAX,
        exported_epoch(exported) is Some && from_be(exported->0) < u64::MAX ==> exported_epoch(
            exported,
        )->0.value == from_be(exported->0),
{
}

/// A peer is known by its certificate where it presents exactly one.
pub proof fn law_one_certificate_is_presented(certificates: Option<Seq<Vec<u8>>>)
    ensures
        presented(certificates) is Some <==> certificates is Some && certificates->0.len() == 1,
        presented(certificates) is Some ==> presented(certificates)->0 == sha256(
            certificates->0[0]@,
        ),
{
}

/// A configuration is valid exactly where the protocol accepts each of its parts, it names two
/// devices, and a setup asks for both directions.
pub proof fn law_which_configurations_are_valid(config: ConfigView)
    ensures
        config.is_valid() <==> {
            &&& config.verdicts == (ProtocolVerdicts {
                local_capabilities: true,
                expected_peer_capabilities: true,
                local_topology: true,
                control: true,
            })
            &&& config.local.subrange(0, 16) != config.peer.subrange(0, 16)
            &&& config.purpose != SessionPurpose::Setup || config.control.is_both()
        },
{
}

/// A frame of another version is the peer's disagreement, one that cannot be read is invalid, and
/// everything else is the stream's.
pub proof fn law_how_wire_faults_are_judged(error: SessionWireError)
    ensures
        wire_verdict(error) == HandshakeError::PeerHelloMismatch <==> error
            == SessionWireError::UnsupportedVersion,
        wire_verdict(error) == HandshakeError::InvalidFrame <==> error
            == SessionWireError::InvalidFrame || error == SessionWireError::TooLarge || error
            == SessionWireError::Truncated,
        wire_verdict(error).is_disagreement() || wire_verdict(error) == HandshakeError::InvalidFrame
            || wire_verdict(error) == HandshakeError::Stream,
{
}

/// What both sides name alike is a disagreement: another purpose, another control, another hello.
pub proof fn law_which_errors_are_disagreements(error: HandshakeError)
    ensures
        error.is_disagreement() <==> error == HandshakeError::PurposeMismatch || error
            == HandshakeError::ControlMismatch || error == HandshakeError::PeerHelloMismatch,
{
}

} // verus!
