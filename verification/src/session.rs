//! State of an explicitly enabled, authenticated input session.

use crate::bytes::{precedes, same_bytes};
use crate::protocol::{
    same_geometries, DeviceId, DisplayId, DisplayTopology, Frame, FrameScope, Message,
};
use crate::session_actor::{
    failure_code, last_receiver_failure, ActorFailure, ReceiverStats,
};
use crate::session_clock::{micros_u64, millis_u64};
use crate::session_receiver::ReceiverFailure;
use crate::time::{clamp_u64, longer, longest, span, Duration, ZERO};
use vstd::prelude::*;
use vstd::string::StringSliceAdditionalSpecFns;

verus! {

/// One millisecond.
pub const SESSION_POLL_INTERVAL: Duration = 1_000_000;

/// Why a platform's input capture stopped.
#[derive(Clone, Copy, Debug, PartialEq, Eq, Structural)]
pub enum StopReason {
    DisplaysChanged,
    NativeFailure,
    Other,
}

/// The check with which the source controller refused to continue, by its code.
#[derive(Clone, Copy, Debug, PartialEq, Eq, Structural)]
pub struct SourceFailure(pub u8);

/// How the QUIC connection ended, as seen locally; peer-supplied text is classified, never shown.
#[derive(Clone, Copy, Debug, PartialEq, Eq, Structural)]
pub enum LinkClose {
    Open,
    PeerEnded,
    /// The other computer's session ended on its own, not by its user; its Home says why.
    PeerFailed,
    PeerRevoked,
    /// The other computer's own displays changed; its layout resyncs, nothing failed.
    PeerDisplaysChanged,
    /// The other computer changed who can control which computer; its link resyncs, nothing
    /// failed.
    PeerControlChanged,
    PeerClosed,
    IdleTimeout,
    Local,
    Transport,
}

impl Default for LinkClose {
    fn default() -> (close: LinkClose)
        ensures
            close == LinkClose::Open,
    {
        LinkClose::Open
    }
}

/// A place in the source.
#[derive(Clone, Copy, Debug, PartialEq, Eq)]
pub struct Location {
    pub file: &'static str,
    pub line: u32,
    pub column: u32,
}

/// Transport facts at the end of a session for the drop line; counts and timings only.
#[derive(Clone, Copy, Debug, PartialEq, Eq)]
pub struct LinkStats {
    pub session_millis: u64,
    /// Longest pause between two loop iterations: a stalled runtime thread shows here.
    pub max_tick_gap_micros: u64,
    pub queued_frames: u64,
    pub written_frames: u64,
    pub rtt_micros: u64,
    pub lost_packets: u64,
    pub sent_packets: u64,
    pub received_datagrams: u64,
    pub congestion_events: u64,
    /// Silences the session survived by holding instead of ending, and the longest one.
    pub holds: u64,
    pub held_max_millis: u64,
    pub close: LinkClose,
    /// Where the session's revocation signal was first revoked, when it was.
    pub revoked_at: Option<Location>,
}

#[derive(Clone, Copy, Debug, PartialEq, Eq, Structural)]
pub enum SessionHalf {
    Outbound,
    Inbound,
}

#[derive(Clone, Copy, Debug)]
pub struct SessionDiagnostics {
    pub sent_events: u64,
    pub received_events: u64,
    pub round_trip_micros: u64,
    pub active_display: Option<DisplayId>,
    pub active_is_local: Option<bool>,
    pub active_half: Option<SessionHalf>,
    /// True while the session waits for the other computer to answer again.
    pub held: bool,
    /// Receiving-side load at the end of a destination session.
    pub receiver: Option<ReceiverStats>,
    /// Transport facts at the end of the session.
    pub link: Option<LinkStats>,
}

/// The display under the pointer and whose it is.
#[derive(Clone, Copy, Debug, PartialEq, Eq, Structural)]
pub struct Route {
    pub display: DisplayId,
    pub local: bool,
}

/// What a session's owner can see of it while it runs and after it ended.
#[derive(Clone, Copy, Debug)]
pub struct SessionProgress {
    pub started: bool,
    pub sent: u64,
    pub received: u64,
    pub rtt_us: u64,
    pub active: Option<Route>,
    pub half: Option<SessionHalf>,
    /// The peer went silent past the deadline; input is local until the link proves itself.
    pub held: bool,
    /// The user ended this session (pause, switch, quit): its close tells the peer it was no failure.
    pub deliberate: bool,
    pub receiver: Option<ReceiverStats>,
    pub link: Option<LinkStats>,
}

impl Default for SessionProgress {
    fn default() -> (progress: SessionProgress)
        ensures
            progress == (SessionProgress {
                started: false,
                sent: 0,
                received: 0,
                rtt_us: 0,
                active: None,
                half: None,
                held: false,
                deliberate: false,
                receiver: None,
                link: None,
            }),
    {
        SessionProgress {
            started: false,
            sent: 0,
            received: 0,
            rtt_us: 0,
            active: None,
            half: None,
            held: false,
            deliberate: false,
            receiver: None,
            link: None,
        }
    }
}

/// One more, starting over after the largest value.
pub open spec fn counted(value: u64) -> u64 {
    if value == u64::MAX {
        0
    } else {
        (value + 1) as u64
    }
}

fn count(value: u64) -> (next: u64)
    ensures
        next == counted(value),
{
    if value == u64::MAX {
        0
    } else {
        value + 1
    }
}

impl SessionProgress {
    pub fn is_started(&self) -> (started: bool)
        ensures
            started == self.started,
    {
        self.started
    }

    pub fn mark_started(&mut self)
        ensures
            *final(self) == (SessionProgress { started: true, ..*old(self) }),
    {
        self.started = true;
    }

    pub fn is_held(&self) -> (held: bool)
        ensures
            held == self.held,
    {
        self.held
    }

    /// Marks the session as ended on purpose so its close reason tells the peer it was no drop.
    pub fn end_deliberately(&mut self)
        ensures
            *final(self) == (SessionProgress { deliberate: true, ..*old(self) }),
    {
        self.deliberate = true;
    }

    pub fn ended_deliberately(&self) -> (deliberate: bool)
        ensures
            deliberate == self.deliberate,
    {
        self.deliberate
    }

    pub fn hold(&mut self, held: bool)
        ensures
            *final(self) == (SessionProgress { held, ..*old(self) }),
    {
        self.held = held;
    }

    pub fn record_receiver(&mut self, stats: ReceiverStats)
        ensures
            *final(self) == (SessionProgress { receiver: Some(stats), ..*old(self) }),
    {
        self.receiver = Some(stats);
    }

    pub fn record_link(&mut self, stats: LinkStats)
        ensures
            *final(self) == (SessionProgress { link: Some(stats), ..*old(self) }),
    {
        self.link = Some(stats);
    }

    pub fn diagnostics(&self) -> (diagnostics: SessionDiagnostics)
        ensures
            diagnostics == (SessionDiagnostics {
                sent_events: self.sent,
                received_events: self.received,
                round_trip_micros: self.rtt_us,
                active_display: match self.active {
                    Some(route) => Some(route.display),
                    None => None,
                },
                active_is_local: match self.active {
                    Some(route) => Some(route.local),
                    None => None,
                },
                active_half: self.half,
                held: self.held,
                receiver: self.receiver,
                link: self.link,
            }),
    {
        SessionDiagnostics {
            sent_events: self.sent,
            received_events: self.received,
            round_trip_micros: self.rtt_us,
            active_display: match self.active {
                Some(route) => Some(route.display),
                None => None,
            },
            active_is_local: match self.active {
                Some(route) => Some(route.local),
                None => None,
            },
            active_half: self.half,
            held: self.held,
            receiver: self.receiver,
            link: self.link,
        }
    }

    pub fn active_half(&mut self, half: Option<SessionHalf>)
        ensures
            *final(self) == (SessionProgress { half, ..*old(self) }),
    {
        self.half = half;
    }

    pub fn route(&mut self, display: Option<DisplayId>, local: bool)
        ensures
            *final(self) == (SessionProgress {
                active: match display {
                    Some(display) => Some(Route { display, local }),
                    None => None,
                },
                ..*old(self)
            }),
    {
        self.active = match display {
            Some(display) => Some(Route { display, local }),
            None => None,
        };
    }

    pub fn received(&mut self, frame: &Frame)
        ensures
            *final(self) == (SessionProgress {
                received: if frame.message.is_input_message() {
                    counted(old(self).received)
                } else {
                    old(self).received
                },
                ..*old(self)
            }),
    {
        if frame.message.is_input() {
            self.received = count(self.received);
        }
    }

    /// Counts a frame that was written.
    pub fn sent(&mut self, frame: &Frame)
        ensures
            *final(self) == (SessionProgress {
                sent: if frame.message.is_input_message() {
                    counted(old(self).sent)
                } else {
                    old(self).sent
                },
                ..*old(self)
            }),
    {
        if frame.message.is_input() {
            self.sent = count(self.sent);
        }
    }
}

#[derive(Clone, Copy, Debug, PartialEq, Eq)]
pub enum SessionFailure {
    Revoked,
    Wire,
    QueueFull,
    UnexpectedStream,
    Destination,
    /// The receiving actor stopped; the code names the native step (1-17) or receiver rule
    /// (20-34) that failed, never any input.
    DestinationActor(ActorFailure, u8),
    Source,
    /// The source controller refused to continue; the reason names the check, never any input.
    SourceController(SourceFailure),
    Native,
    NativeStartup,
    Startup(SessionStartupFailure),
    NativeCaptureStartup(NativeCaptureStartupFailure),
    NativeCleanup,
    InvalidLayout,
    LocalDisplaysChanged,
}

/// A bounded failure observed during session startup before input delivery begins.
#[derive(Clone, Copy, Debug, PartialEq, Eq, Structural)]
pub enum SessionStartupFailure {
    PeerHealth(StartupPeerHealthFailure),
    Deadline,
    Sequence,
    UnexpectedMessage,
    RateLimited,
    NotReady,
    DisplayUnavailable,
    CaptureTaskUnavailable,
    CaptureWorkerUnavailable,
    RevocationWatchUnavailable,
    NativeOwnershipUnavailable,
    ReceiverUnavailable,
    CaptureEnded,
    CaptureStopped(StopReason),
}

/// A peer-health condition observed while establishing an input session.
#[derive(Clone, Copy, Debug, PartialEq, Eq, Structural)]
pub enum StartupPeerHealthFailure {
    ClockRegression,
    DeadlineExpired,
    UnexpectedResponse,
    TokenExhausted,
}

/// A redacted native source-capture construction result.
#[derive(Clone, Copy, Debug, PartialEq, Eq)]
pub enum NativeCaptureStartupFailure {
    AlreadyActive,
    DesktopUnavailable,
    InvalidDuration,
    StartFailed,
    StartupTimeout,
    CleanupPending,
    ControlPending,
    ControlFailed,
    WorkerPanicked,
    Stopped(StopReason),
    WindowsOperation { operation: &'static str, code: u32 },
    Platform,
}

/// A fresh native display snapshot never continues a session on stale geometry.
pub fn check_local_displays(expected: &DisplayTopology, current: &DisplayTopology) -> (result:
    Result<(), SessionFailure>)
    ensures
        result == (if same_geometries(expected@, current@) {
            Ok::<(), SessionFailure>(())
        } else {
            Err::<(), SessionFailure>(SessionFailure::LocalDisplaysChanged)
        }),
{
    if expected.same_geometry(current) {
        Ok(())
    } else {
        Err(SessionFailure::LocalDisplaysChanged)
    }
}

/// A fresh read that failed mid-change counts as a change: the session ends at once either way.
pub fn check_read_displays(expected: &DisplayTopology, current: Option<&DisplayTopology>) -> (result:
    Result<(), SessionFailure>)
    ensures
        result == (if current matches Some(read) && same_geometries(expected@, read@) {
            Ok::<(), SessionFailure>(())
        } else {
            Err::<(), SessionFailure>(SessionFailure::LocalDisplaysChanged)
        }),
{
    match current {
        Some(read) => check_local_displays(expected, read),
        None => Err(SessionFailure::LocalDisplaysChanged),
    }
}

/// Scopes bind directions to device identity, never to who dialed the connection.
#[derive(Clone, Copy, Debug, PartialEq, Eq, Structural)]
pub struct SessionScopes {
    pub outbound: FrameScope,
    pub inbound: FrameScope,
}

/// The scopes of a computer that is the lower one of its pair, or the higher one.
pub open spec fn scopes_of(is_lower: bool) -> SessionScopes {
    SessionScopes {
        outbound: if is_lower {
            FrameScope::LowerControlsHigher
        } else {
            FrameScope::HigherControlsLower
        },
        inbound: if is_lower {
            FrameScope::HigherControlsLower
        } else {
            FrameScope::LowerControlsHigher
        },
    }
}

impl SessionScopes {
    pub fn new(local: DeviceId, peer: DeviceId) -> (scopes: Result<SessionScopes, SessionFailure>)
        ensures
            scopes == (if local.0@ == peer.0@ {
                Err::<SessionScopes, SessionFailure>(SessionFailure::Destination)
            } else {
                Ok::<SessionScopes, SessionFailure>(scopes_of(precedes(local.0@, peer.0@)))
            }),
    {
        if local.same(&peer) {
            return Err(SessionFailure::Destination);
        }
        let lower = local.is_lower_than(&peer);
        Ok(
            SessionScopes {
                outbound: if lower {
                    FrameScope::LowerControlsHigher
                } else {
                    FrameScope::HigherControlsLower
                },
                inbound: if lower {
                    FrameScope::HigherControlsLower
                } else {
                    FrameScope::LowerControlsHigher
                },
            },
        )
    }

    /// The connection itself carries only its end; a direction carries all but the handshake.
    pub open spec fn admits(self, frame: Frame) -> bool {
        if frame.scope == FrameScope::Connection {
            frame.message is Disconnect || frame.message is Error
        } else {
            &&& frame.scope == self.outbound || frame.scope == self.inbound
            &&& !(frame.message is Hello)
            &&& !(frame.message is SessionSetup)
            &&& !(frame.message is DisplayTopology)
        }
    }

    pub fn validate(&self, frame: &Frame) -> (result: Result<(), SessionFailure>)
        ensures
            result == (if self.admits(*frame) {
                Ok::<(), SessionFailure>(())
            } else {
                Err::<(), SessionFailure>(SessionFailure::UnexpectedStream)
            }),
    {
        if frame.scope == FrameScope::Connection {
            match frame.message {
                Message::Disconnect | Message::Error => return Ok(()),
                _ => {},
            }
        } else if frame.scope == self.outbound || frame.scope == self.inbound {
            match frame.message {
                Message::Hello(_) | Message::SessionSetup(_) | Message::DisplayTopology(_) => {},
                _ => return Ok(()),
            }
        }
        Err(SessionFailure::UnexpectedStream)
    }
}

/// What one computer calls outbound the other calls inbound, and the two are never the same.
pub proof fn law_scopes_mirror_each_other(is_lower: bool)
    ensures
        scopes_of(is_lower).outbound == scopes_of(!is_lower).inbound,
        scopes_of(is_lower).inbound == scopes_of(!is_lower).outbound,
        scopes_of(is_lower).outbound != scopes_of(is_lower).inbound,
{
}

/// What the queue to the writer did with a frame.
#[derive(Clone, Copy, Debug, PartialEq, Eq, Structural)]
pub enum Queueing {
    Accepted,
    Full,
    Closed,
}

/// What arrived on a connection first.
pub enum Arrived {
    Frame(Frame),
    /// The ordered stream ended or held no valid frame.
    StreamFailed,
    /// A datagram that holds no valid frame.
    InvalidDatagram,
    DatagramsClosed,
    /// The peer opened a stream.
    StreamOpened,
    ConnectionClosed,
}

/// Transport counters as the connection keeps them.
#[derive(Clone, Copy, Debug, PartialEq, Eq, Structural)]
pub struct ConnectionStats {
    pub rtt: Duration,
    pub lost_packets: u64,
    pub sent_packets: u64,
    pub received_datagrams: u64,
    pub congestion_events: u64,
}

/// The directions of a connection and how many frames went towards its writer and out of it.
#[derive(Clone, Copy, Debug, PartialEq, Eq, Structural)]
pub struct SessionIo {
    pub scopes: SessionScopes,
    pub queued: u64,
    pub written: u64,
}

impl SessionIo {
    pub fn new(scopes: SessionScopes) -> (io: SessionIo)
        ensures
            io == (SessionIo { scopes, queued: 0, written: 0 }),
    {
        SessionIo { scopes, queued: 0, written: 0 }
    }

    /// Counts what became of a frame handed to the queue.
    pub fn send(&mut self, queueing: Queueing) -> (result: Result<(), SessionFailure>)
        ensures
            match queueing {
                Queueing::Accepted => result == Ok::<(), SessionFailure>(()) && *final(self) == (
                SessionIo { queued: counted(old(self).queued), ..*old(self) }),
                Queueing::Full => result == Err::<(), _>(SessionFailure::QueueFull) && *final(self)
                    == *old(self),
                Queueing::Closed => result == Err::<(), _>(SessionFailure::Wire) && *final(self)
                    == *old(self),
            },
    {
        match queueing {
            Queueing::Accepted => {
                self.queued = count(self.queued);
                Ok(())
            },
            Queueing::Full => Err(SessionFailure::QueueFull),
            Queueing::Closed => Err(SessionFailure::Wire),
        }
    }

    /// The frame as it goes out to the computer that this one controls.
    pub fn send_outbound(&self, frame: Frame) -> (scoped: Frame)
        ensures
            scoped == (Frame { scope: self.scopes.outbound, ..frame }),
    {
        Frame {
            scope: self.scopes.outbound,
            epoch: frame.epoch,
            sequence: frame.sequence,
            delivery: frame.delivery,
            message: frame.message,
        }
    }

    /// The frame as it answers the computer that controls this one.
    pub fn send_inbound(&self, frame: Frame) -> (scoped: Frame)
        ensures
            scoped == (Frame { scope: self.scopes.inbound, ..frame }),
    {
        Frame {
            scope: self.scopes.inbound,
            epoch: frame.epoch,
            sequence: frame.sequence,
            delivery: frame.delivery,
            message: frame.message,
        }
    }

    /// Whether the writer sends a frame as a datagram: a heartbeat never waits for the stream.
    pub fn goes_as_datagram(&self, frame: &Frame) -> (datagram: bool)
        ensures
            datagram == frame.message.is_heartbeat_message(),
    {
        frame.message.is_heartbeat()
    }

    /// Counts a frame that the writer wrote.
    pub fn wrote(&mut self, frame: &Frame, progress: &mut SessionProgress)
        ensures
            *final(self) == (SessionIo { written: counted(old(self).written), ..*old(self) }),
            *final(progress) == (SessionProgress {
                sent: if frame.message.is_input_message() {
                    counted(old(progress).sent)
                } else {
                    old(progress).sent
                },
                ..*old(progress)
            }),
    {
        self.written = count(self.written);
        progress.sent(frame);
    }

    /// The next frame from the ordered stream or a heartbeat datagram. A peer that opens a
    /// stream ends the session; a closed connection surfaces as Wire.
    pub fn next_frame(&self, arrived: Arrived) -> (frame: Result<Frame, SessionFailure>)
        ensures
            frame == (match arrived {
                Arrived::Frame(read) => if self.scopes.admits(read) {
                    Ok::<Frame, SessionFailure>(read)
                } else {
                    Err::<Frame, SessionFailure>(SessionFailure::UnexpectedStream)
                },
                Arrived::InvalidDatagram | Arrived::StreamOpened => Err::<Frame, SessionFailure>(
                    SessionFailure::UnexpectedStream,
                ),
                Arrived::StreamFailed
                | Arrived::DatagramsClosed
                | Arrived::ConnectionClosed => Err::<Frame, SessionFailure>(SessionFailure::Wire),
            }),
    {
        match arrived {
            Arrived::Frame(read) => match self.scopes.validate(&read) {
                Ok(()) => Ok(read),
                Err(failure) => Err(failure),
            },
            Arrived::InvalidDatagram => Err(SessionFailure::UnexpectedStream),
            Arrived::StreamOpened => Err(peer_event(true)),
            Arrived::ConnectionClosed => Err(peer_event(false)),
            Arrived::StreamFailed | Arrived::DatagramsClosed => Err(SessionFailure::Wire),
        }
    }

    pub fn link_stats(
        &self,
        session_millis: u64,
        max_tick_gap_micros: u64,
        holds: (u64, u64),
        revoked_at: Option<Location>,
        stats: ConnectionStats,
        close: &Option<ConnectionError>,
    ) -> (link: LinkStats)
        ensures
            link == (LinkStats {
                session_millis,
                max_tick_gap_micros,
                queued_frames: self.queued,
                written_frames: self.written,
                rtt_micros: clamp_u64(stats.rtt as nat / 1_000) as u64,
                lost_packets: stats.lost_packets,
                sent_packets: stats.sent_packets,
                received_datagrams: stats.received_datagrams,
                congestion_events: stats.congestion_events,
                holds: holds.0,
                held_max_millis: holds.1,
                close: close_class(*close),
                revoked_at,
            }),
    {
        LinkStats {
            session_millis,
            max_tick_gap_micros,
            holds: holds.0,
            held_max_millis: holds.1,
            revoked_at,
            queued_frames: self.queued,
            written_frames: self.written,
            rtt_micros: micros_u64(stats.rtt),
            lost_packets: stats.lost_packets,
            sent_packets: stats.sent_packets,
            received_datagrams: stats.received_datagrams,
            congestion_events: stats.congestion_events,
            close: classify_close(close),
        }
    }

    /// Notes the round trip and whether the connection still carries the session.
    pub fn check(
        &self,
        progress: &mut SessionProgress,
        rtt: Duration,
        writer_finished: bool,
        closed: bool,
    ) -> (result: Result<(), SessionFailure>)
        ensures
            *final(progress) == (SessionProgress {
                rtt_us: clamp_u64(rtt as nat / 1_000) as u64,
                ..*old(progress)
            }),
            result == (if writer_finished || closed {
                Err::<(), SessionFailure>(SessionFailure::Wire)
            } else {
                Ok::<(), SessionFailure>(())
            }),
    {
        progress.rtt_us = micros_u64(rtt);
        if writer_finished || closed {
            Err(SessionFailure::Wire)
        } else {
            Ok(())
        }
    }
}

pub const SESSION_ENDED_REASON: &'static str = "input session ended";

pub const SESSION_FAILED_REASON: &'static str = "input session failed";

pub const NETWORK_REVOKED_REASON: &'static str = "network revoked";

pub const DISPLAYS_CHANGED_REASON: &'static str = "displays changed";

pub const CONTROL_CHANGED_REASON: &'static str = "control changed";

/// What the peer is told of a session's end.
pub open spec fn told_reason(
    result: Result<(), SessionFailure>,
    deliberate: bool,
    control_change: bool,
) -> &'static str {
    match result {
        Ok(()) => SESSION_ENDED_REASON,
        Err(SessionFailure::Revoked) => if deliberate && control_change {
            CONTROL_CHANGED_REASON
        } else if deliberate {
            SESSION_ENDED_REASON
        } else {
            SESSION_FAILED_REASON
        },
        Err(SessionFailure::LocalDisplaysChanged) => DISPLAYS_CHANGED_REASON,
        Err(_) => SESSION_FAILED_REASON,
    }
}

/// A user's stop closes as ended and the peer records no drop; a display change or a control-flip
/// stop closes as such so the peer resyncs instead of reporting a failure. Any other end, native
/// stops counted in, failed.
pub fn close_reason(
    result: &Result<(), SessionFailure>,
    deliberate: bool,
    control_change: bool,
) -> (reason: &'static str)
    ensures
        reason == told_reason(*result, deliberate, control_change),
{
    match result {
        Ok(()) => SESSION_ENDED_REASON,
        Err(SessionFailure::Revoked) => if deliberate && control_change {
            CONTROL_CHANGED_REASON
        } else if deliberate {
            SESSION_ENDED_REASON
        } else {
            SESSION_FAILED_REASON
        },
        Err(SessionFailure::LocalDisplaysChanged) => DISPLAYS_CHANGED_REASON,
        Err(_) => SESSION_FAILED_REASON,
    }
}

/// How a connection ended.
#[derive(Clone, Debug, PartialEq, Eq)]
pub enum ConnectionError {
    /// The peer closed it and gave a reason.
    ApplicationClosed(Vec<u8>),
    TimedOut,
    LocallyClosed,
    Other,
}

/// How a connection's end reads.
pub open spec fn close_class(reason: Option<ConnectionError>) -> LinkClose {
    match reason {
        None => LinkClose::Open,
        Some(ConnectionError::ApplicationClosed(text)) => told_class(text@),
        Some(ConnectionError::TimedOut) => LinkClose::IdleTimeout,
        Some(ConnectionError::LocallyClosed) => LinkClose::Local,
        Some(ConnectionError::Other) => LinkClose::Transport,
    }
}

/// How the reason that a peer gave reads.
pub open spec fn told_class(reason: Seq<u8>) -> LinkClose {
    if reason == SESSION_ENDED_REASON.spec_bytes() {
        LinkClose::PeerEnded
    } else if reason == SESSION_FAILED_REASON.spec_bytes() {
        LinkClose::PeerFailed
    } else if reason == NETWORK_REVOKED_REASON.spec_bytes() {
        LinkClose::PeerRevoked
    } else if reason == DISPLAYS_CHANGED_REASON.spec_bytes() {
        LinkClose::PeerDisplaysChanged
    } else if reason == CONTROL_CHANGED_REASON.spec_bytes() {
        LinkClose::PeerControlChanged
    } else {
        LinkClose::PeerClosed
    }
}

pub fn classify_close(reason: &Option<ConnectionError>) -> (close: LinkClose)
    ensures
        close == close_class(*reason),
{
    match reason {
        None => LinkClose::Open,
        Some(ConnectionError::ApplicationClosed(text)) => {
            let text = text.as_slice();
            if same_bytes(text, SESSION_ENDED_REASON.as_bytes()) {
                LinkClose::PeerEnded
            } else if same_bytes(text, SESSION_FAILED_REASON.as_bytes()) {
                LinkClose::PeerFailed
            } else if same_bytes(text, NETWORK_REVOKED_REASON.as_bytes()) {
                LinkClose::PeerRevoked
            } else if same_bytes(text, DISPLAYS_CHANGED_REASON.as_bytes()) {
                LinkClose::PeerDisplaysChanged
            } else if same_bytes(text, CONTROL_CHANGED_REASON.as_bytes()) {
                LinkClose::PeerControlChanged
            } else {
                LinkClose::PeerClosed
            }
        },
        Some(ConnectionError::TimedOut) => LinkClose::IdleTimeout,
        Some(ConnectionError::LocallyClosed) => LinkClose::Local,
        Some(ConnectionError::Other) => LinkClose::Transport,
    }
}

proof fn lemma_reasons_differ()
    ensures
        SESSION_ENDED_REASON.spec_bytes() != SESSION_FAILED_REASON.spec_bytes(),
        SESSION_ENDED_REASON.spec_bytes() != NETWORK_REVOKED_REASON.spec_bytes(),
        SESSION_ENDED_REASON.spec_bytes() != DISPLAYS_CHANGED_REASON.spec_bytes(),
        SESSION_ENDED_REASON.spec_bytes() != CONTROL_CHANGED_REASON.spec_bytes(),
        SESSION_FAILED_REASON.spec_bytes() != NETWORK_REVOKED_REASON.spec_bytes(),
        SESSION_FAILED_REASON.spec_bytes() != DISPLAYS_CHANGED_REASON.spec_bytes(),
        SESSION_FAILED_REASON.spec_bytes() != CONTROL_CHANGED_REASON.spec_bytes(),
        NETWORK_REVOKED_REASON.spec_bytes() != DISPLAYS_CHANGED_REASON.spec_bytes(),
        NETWORK_REVOKED_REASON.spec_bytes() != CONTROL_CHANGED_REASON.spec_bytes(),
        DISPLAYS_CHANGED_REASON.spec_bytes() != CONTROL_CHANGED_REASON.spec_bytes(),
{
    reveal_strlit("input session ended");
    reveal_strlit("input session failed");
    reveal_strlit("network revoked");
    reveal_strlit("displays changed");
    reveal_strlit("control changed");
    vstd::utf8::is_ascii_chars_encode_utf8(SESSION_ENDED_REASON@);
    vstd::utf8::is_ascii_chars_encode_utf8(SESSION_FAILED_REASON@);
    vstd::utf8::is_ascii_chars_encode_utf8(NETWORK_REVOKED_REASON@);
    vstd::utf8::is_ascii_chars_encode_utf8(DISPLAYS_CHANGED_REASON@);
    vstd::utf8::is_ascii_chars_encode_utf8(CONTROL_CHANGED_REASON@);
    assert(NETWORK_REVOKED_REASON.spec_bytes()[0] == 'n' as u8);
    assert(CONTROL_CHANGED_REASON.spec_bytes()[0] == 'c' as u8);
}

/// The peer reads a session's end as what it was: a display change as such, a user's stop as an
/// end or a control change, and any other failure as a failure.
pub proof fn law_the_peer_reads_the_end_as_it_was(
    result: Result<(), SessionFailure>,
    deliberate: bool,
    control_change: bool,
)
    ensures
        told_class(told_reason(result, deliberate, control_change).spec_bytes()) == (match result {
            Ok(()) => LinkClose::PeerEnded,
            Err(SessionFailure::LocalDisplaysChanged) => LinkClose::PeerDisplaysChanged,
            Err(SessionFailure::Revoked) => if deliberate && control_change {
                LinkClose::PeerControlChanged
            } else if deliberate {
                LinkClose::PeerEnded
            } else {
                LinkClose::PeerFailed
            },
            Err(_) => LinkClose::PeerFailed,
        }),
{
    lemma_reasons_differ();
}

/// A closed connection surfaces on the stream acceptors too; only a real new stream is unexpected.
pub fn peer_event(opened: bool) -> (failure: SessionFailure)
    ensures
        failure == (if opened {
            SessionFailure::UnexpectedStream
        } else {
            SessionFailure::Wire
        }),
{
    if opened {
        SessionFailure::UnexpectedStream
    } else {
        SessionFailure::Wire
    }
}

/// Longest pause between loop iterations, so a stalled runtime thread is visible on the drop line.
#[derive(Clone, Copy, Debug, PartialEq, Eq, Structural)]
pub struct TickGap {
    pub last: Duration,
    pub max: Duration,
}

impl TickGap {
    pub fn new(now: Duration) -> (gap: TickGap)
        ensures
            gap == (TickGap { last: now, max: ZERO }),
    {
        TickGap { last: now, max: ZERO }
    }

    pub fn observe(&mut self, now: Duration)
        ensures
            final(self).last == now,
            final(self).max == longer(old(self).max as nat, span(now as nat, old(self).last as nat)),
    {
        let pause: Duration = if now >= self.last {
            now - self.last
        } else {
            ZERO
        };
        self.max = longest(self.max, pause);
        self.last = now;
    }

    pub fn max_micros(&self) -> (micros: u64)
        ensures
            micros == clamp_u64(self.max as nat / 1_000),
    {
        micros_u64(self.max)
    }
}

/// What was noted of a stopped destination: the receiver's rule and the last native step.
#[derive(Clone, Copy, Debug, PartialEq, Eq, Structural)]
pub struct ActorDetail {
    pub receiver: Option<ReceiverFailure>,
    pub step: u8,
}

/// How a stopped destination ends the session.
pub open spec fn destination_end(reason: ActorFailure, detail: ActorDetail) -> SessionFailure {
    match reason {
        ActorFailure::LocalDisplaysChanged => SessionFailure::LocalDisplaysChanged,
        ActorFailure::Receiver => SessionFailure::DestinationActor(
            reason,
            match detail.receiver {
                Some(failure) => failure_code(failure),
                None => 0,
            },
        ),
        _ => SessionFailure::DestinationActor(reason, detail.step),
    }
}

pub fn destination_failure(reason: ActorFailure, detail: ActorDetail) -> (failure: SessionFailure)
    ensures
        failure == destination_end(reason, detail),
{
    match reason {
        ActorFailure::LocalDisplaysChanged => SessionFailure::LocalDisplaysChanged,
        ActorFailure::Receiver => SessionFailure::DestinationActor(
            reason,
            last_receiver_failure(detail.receiver),
        ),
        _ => SessionFailure::DestinationActor(reason, detail.step),
    }
}

/// A display change was noted on either side.
pub open spec fn display_change(
    capture: Option<StopReason>,
    destination: Option<ActorFailure>,
) -> bool {
    capture == Some(StopReason::DisplaysChanged) || destination == Some(
        ActorFailure::LocalDisplaysChanged,
    )
}

fn displays_changed(capture: Option<StopReason>, destination: Option<ActorFailure>) -> (changed: bool)
    ensures
        changed == display_change(capture, destination),
{
    capture == Some(StopReason::DisplaysChanged) || destination == Some(
        ActorFailure::LocalDisplaysChanged,
    )
}

pub open spec fn workers_end(
    stopping: bool,
    deliberate: bool,
    capture: Option<StopReason>,
    capture_finished: bool,
    destination: Option<ActorFailure>,
    detail: ActorDetail,
) -> Option<SessionFailure> {
    if stopping && (deliberate || !display_change(capture, destination)) {
        Some(SessionFailure::Revoked)
    } else if display_change(capture, destination) {
        Some(SessionFailure::LocalDisplaysChanged)
    } else {
        match destination {
            Some(reason) => Some(destination_end(reason, detail)),
            None => if capture_finished || capture is Some {
                Some(SessionFailure::Native)
            } else {
                None
            },
        }
    }
}

/// Why the coordinator must stop now. A display change outranks the revocation the platform marks
/// alongside it; only a user's own stop outranks the display change.
pub fn worker_end(
    stopping: bool,
    deliberate: bool,
    capture: Option<StopReason>,
    capture_finished: bool,
    destination: Option<ActorFailure>,
    detail: ActorDetail,
) -> (end: Option<SessionFailure>)
    ensures
        end == workers_end(stopping, deliberate, capture, capture_finished, destination, detail),
{
    let changed = displays_changed(capture, destination);
    if stopping && (deliberate || !changed) {
        return Some(SessionFailure::Revoked);
    }
    if changed {
        return Some(SessionFailure::LocalDisplaysChanged);
    }
    if let Some(reason) = destination {
        return Some(destination_failure(reason, detail));
    }
    if capture_finished || capture.is_some() {
        Some(SessionFailure::Native)
    } else {
        None
    }
}

pub open spec fn settled_end(
    result: Result<(), SessionFailure>,
    deliberate: bool,
    capture: Option<StopReason>,
    destination: Option<ActorFailure>,
) -> Result<(), SessionFailure> {
    if result is Err && !deliberate && display_change(capture, destination) {
        Err(SessionFailure::LocalDisplaysChanged)
    } else {
        result
    }
}

/// Reclassifies an end whose display change was recorded after the loop saw its revocation or
/// native stop.
pub fn settle_end(
    result: Result<(), SessionFailure>,
    deliberate: bool,
    capture: Option<StopReason>,
    destination: Option<ActorFailure>,
) -> (settled: Result<(), SessionFailure>)
    ensures
        settled == settled_end(result, deliberate, capture, destination),
{
    if result.is_err() && !deliberate && displays_changed(capture, destination) {
        return Err(SessionFailure::LocalDisplaysChanged);
    }
    result
}

/// A display change ends a session as one whether it was noted before the loop saw the revocation
/// or after it, unless the user ended the session.
pub proof fn law_a_display_change_outranks_its_revocation(
    capture: Option<StopReason>,
    capture_finished: bool,
    destination: Option<ActorFailure>,
    detail: ActorDetail,
    earlier: SessionFailure,
    stopping: bool,
)
    requires
        display_change(capture, destination),
    ensures
        workers_end(stopping, false, capture, capture_finished, destination, detail) == Some(
            SessionFailure::LocalDisplaysChanged,
        ),
        settled_end(Err(earlier), false, capture, destination) == Err::<(), _>(
            SessionFailure::LocalDisplaysChanged,
        ),
        workers_end(true, true, capture, capture_finished, destination, detail) == Some(
            SessionFailure::Revoked,
        ),
        settled_end(Err(earlier), true, capture, destination) == Err::<(), _>(earlier),
{
}

pub fn session_millis(started_at: Option<Duration>, now: Duration) -> (millis: u64)
    ensures
        millis == (match started_at {
            Some(started) => clamp_u64(span(now as nat, started as nat) / 1_000_000),
            None => 0nat,
        }),
{
    match started_at {
        Some(started) => if now >= started {
            millis_u64(now - started)
        } else {
            millis_u64(ZERO)
        },
        None => 0,
    }
}

/// The lower computer controls the higher one in the outbound direction, and is controlled in the
/// other.
pub proof fn law_scopes_name_who_controls(is_lower: bool)
    ensures
        scopes_of(is_lower).outbound == FrameScope::LowerControlsHigher <==> is_lower,
        scopes_of(is_lower).inbound == FrameScope::HigherControlsLower <==> is_lower,
        scopes_of(is_lower).outbound != FrameScope::Connection,
        scopes_of(is_lower).inbound != FrameScope::Connection,
{
}

/// A session admits a frame of no direction exactly where it ends the session or reports an error,
/// and one of a direction exactly where it is none of the handshake's.
pub proof fn law_which_frames_a_session_admits(is_lower: bool, frame: Frame)
    ensures
        ({
            let admits = scopes_of(is_lower).admits(frame);
            &&& frame.scope == FrameScope::Connection ==> (admits <==> frame.message is Disconnect
                || frame.message is Error)
            &&& frame.scope != FrameScope::Connection ==> (admits <==> !(frame.message is Hello)
                && !(frame.message is SessionSetup) && !(frame.message is DisplayTopology))
        }),
{
}

/// A session goes on exactly while nothing stops it and both workers do; how it ends names its cause:
/// the user or a revocation first, then changed displays, then the destination with what it says of
/// itself, then the capture.
pub proof fn law_how_the_workers_end_a_session(
    stopping: bool,
    deliberate: bool,
    capture: Option<StopReason>,
    capture_finished: bool,
    destination: Option<ActorFailure>,
    detail: ActorDetail,
)
    ensures
        ({
            let end = workers_end(
                stopping,
                deliberate,
                capture,
                capture_finished,
                destination,
                detail,
            );
            let displays = capture == Some(StopReason::DisplaysChanged) || destination == Some(
                ActorFailure::LocalDisplaysChanged,
            );
            &&& end is None <==> !stopping && capture is None && !capture_finished && destination
                is None
            &&& end == Some(SessionFailure::Revoked) <==> stopping && (deliberate || !displays)
            &&& end == Some(SessionFailure::LocalDisplaysChanged) <==> displays && !(stopping
                && deliberate)
            &&& !stopping && !displays && destination is None && (capture is Some
                || capture_finished) ==> end == Some(SessionFailure::Native)
            &&& !stopping && !displays && destination is Some ==> end == Some(
                SessionFailure::DestinationActor(
                    destination->0,
                    if destination->0 != ActorFailure::Receiver {
                        detail.step
                    } else if detail.receiver is Some {
                        failure_code(detail.receiver->0)
                    } else {
                        0
                    },
                ),
            )
        }),
{
}

/// A clean end stays clean, and an end without changed displays stays what it was.
pub proof fn law_only_changed_displays_settle_an_end(
    result: Result<(), SessionFailure>,
    deliberate: bool,
    capture: Option<StopReason>,
    destination: Option<ActorFailure>,
)
    ensures
        result is Ok ==> settled_end(result, deliberate, capture, destination) is Ok,
        capture != Some(StopReason::DisplaysChanged) && destination != Some(
            ActorFailure::LocalDisplaysChanged,
        ) ==> settled_end(result, deliberate, capture, destination) == result,
{
}

/// A connection that is open, timed out, was closed here or failed is told apart, and one that the
/// peer closed is told by the peer's words.
pub proof fn law_how_closed_connections_are_told_apart(reason: Option<ConnectionError>)
    ensures
        close_class(reason) == LinkClose::Open <==> reason is None,
        close_class(reason) == LinkClose::IdleTimeout <==> reason == Some(
            ConnectionError::TimedOut,
        ),
        close_class(reason) == LinkClose::Local <==> reason == Some(ConnectionError::LocallyClosed),
        close_class(reason) == LinkClose::Transport <==> reason == Some(ConnectionError::Other),
        reason matches Some(ConnectionError::ApplicationClosed(text)) ==> close_class(reason)
            == told_class(text@),
{
}

/// Words that no session says are told as a close without a cause, and only those.
pub proof fn law_unknown_words_have_no_cause(reason: Seq<u8>)
    ensures
        told_class(reason) == LinkClose::PeerClosed <==> reason != SESSION_ENDED_REASON.spec_bytes()
            && reason != SESSION_FAILED_REASON.spec_bytes() && reason
            != NETWORK_REVOKED_REASON.spec_bytes() && reason
            != DISPLAYS_CHANGED_REASON.spec_bytes() && reason
            != CONTROL_CHANGED_REASON.spec_bytes(),
        told_class(reason) == LinkClose::PeerRevoked ==> reason
            == NETWORK_REVOKED_REASON.spec_bytes(),
{
}

/// A counter goes on by one, and begins again after the largest number.
pub proof fn law_counters_go_on_by_one(value: u64)
    ensures
        value < u64::MAX ==> counted(value) == value + 1,
        value == u64::MAX ==> counted(value) == 0,
{
}

} // verus!
