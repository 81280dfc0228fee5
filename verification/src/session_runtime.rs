//! One network coordinator, one capture worker and one independent injection watchdog.

use crate::protocol::{
    Coordinate, DeviceId, DisplayDescription, DisplayId, DisplayTopology, Frame, FrameScope, Message,
    Point, SessionPurpose,
};
use crate::session::{
    worker_end, workers_end, ActorDetail, Route, SessionFailure, SessionHalf, SessionProgress,
    SessionScopes, SessionStartupFailure, StopReason, TickGap,
};
use crate::session_actor::{
    ActorFailure, ReceiverStats, DISPLAY_CHECK_INTERVAL, SESSION_QUEUE_CAPACITY,
};
use crate::session_clock::millis_u64;
use crate::time::{clamp_u64, longer, span, Duration, ZERO};
use vstd::prelude::*;

verus! {

/// 16 ms.
pub const POINTER_POLL_INTERVAL: Duration = 16_000_000;

/// 250 ms.
pub const CLEANUP_WAIT: Duration = 250_000_000;

/// How many captured events one iteration takes.
pub const DRAIN_LIMIT: usize = 256;

/// A display as the saved layout places it. `shift` is its origin there less the origin that its own
/// computer gives it, subtracted as floating-point numbers.
#[derive(Clone, Copy, Debug)]
pub struct LayoutDisplay {
    pub id: DisplayId,
    pub machine: DeviceId,
    pub in_use: bool,
    pub primary: bool,
    pub logical_size: Point,
    pub native_width: u32,
    pub native_height: u32,
    pub scale_factor: Coordinate,
    pub shift: Point,
}

impl LayoutDisplay {
    /// A display of this computer that the pointer can start on.
    pub open spec fn can_start(self, local: DeviceId, as_primary: bool) -> bool {
        self.machine.0@ == local.0@ && self.in_use && (as_primary ==> self.primary)
    }

    /// The layout keeps what the computer says of the display.
    pub open spec fn keeps(self, display: DisplayDescription, device: DeviceId) -> bool {
        &&& self.machine.0@ == device.0@
        &&& self.logical_size == display.logical_size
        &&& self.native_width == display.native_width
        &&& self.native_height == display.native_height
        &&& self.scale_factor == display.scale_factor
    }
}

/// The first display that the pointer can start on.
pub open spec fn first_start(
    displays: Seq<LayoutDisplay>,
    local: DeviceId,
    as_primary: bool,
) -> Option<DisplayId>
    decreases displays.len(),
{
    if displays.len() == 0 {
        None
    } else if displays[0].can_start(local, as_primary) {
        Some(displays[0].id)
    } else {
        first_start(displays.drop_first(), local, as_primary)
    }
}

/// Where the pointer starts: on the primary display of this computer if it is in use, else on the
/// first one that is.
pub open spec fn start_display(displays: Seq<LayoutDisplay>, local: DeviceId) -> Option<DisplayId> {
    match first_start(displays, local, true) {
        Some(id) => Some(id),
        None => first_start(displays, local, false),
    }
}

fn find_start(displays: &[LayoutDisplay], local: DeviceId, as_primary: bool) -> (start: Option<
    DisplayId,
>)
    ensures
        start == first_start(displays@, local, as_primary),
{
    let mut index: usize = 0;
    assert(displays@.skip(0) =~= displays@);
    while index < displays.len()
        invariant
            index <= displays@.len(),
            first_start(displays@, local, as_primary) == first_start(
                displays@.skip(index as int),
                local,
                as_primary,
            ),
        decreases displays@.len() - index,
    {
        assert(displays@.skip(index as int).drop_first() =~= displays@.skip(index + 1));
        let display = displays[index];
        if display.machine.same(&local) && display.in_use && (!as_primary || display.primary) {
            return Some(display.id);
        }
        index = index + 1;
    }
    None
}

/// Where the pointer starts.
pub fn initial_display(displays: &[LayoutDisplay], local: DeviceId) -> (start: Option<DisplayId>)
    ensures
        start == start_display(displays@, local),
{
    match find_start(displays, local, true) {
        Some(id) => Some(id),
        None => find_start(displays, local, false),
    }
}

/// The first display of the layout with an id.
pub open spec fn placed_display(displays: Seq<LayoutDisplay>, id: DisplayId) -> Option<LayoutDisplay>
    decreases displays.len(),
{
    if displays.len() == 0 {
        None
    } else if displays[0].id == id {
        Some(displays[0])
    } else {
        placed_display(displays.drop_first(), id)
    }
}

fn find_placed(displays: &[LayoutDisplay], id: DisplayId) -> (found: Option<LayoutDisplay>)
    ensures
        found == placed_display(displays@, id),
{
    let mut index: usize = 0;
    assert(displays@.skip(0) =~= displays@);
    while index < displays.len()
        invariant
            index <= displays@.len(),
            placed_display(displays@, id) == placed_display(displays@.skip(index as int), id),
        decreases displays@.len() - index,
    {
        assert(displays@.skip(index as int).drop_first() =~= displays@.skip(index + 1));
        if displays[index].id == id {
            return Some(displays[index]);
        }
        index = index + 1;
    }
    None
}

/// The layout keeps a computer's displays and moves each of them by `shift`.
pub open spec fn moved_by(
    layout: Seq<LayoutDisplay>,
    native: Seq<DisplayDescription>,
    device: DeviceId,
    shift: Point,
) -> bool {
    forall|i: int|
        0 <= i < native.len() ==> (placed_display(layout, (#[trigger] native[i]).id) matches Some(
            actual,
        ) && actual.keeps(native[i], device) && actual.shift == shift)
}

/// The point that is not moved.
pub open spec fn no_shift() -> Point {
    Point { x: 0, y: 0 }
}

/// The layout holds the displays of both computers and no others: local ones where they are, the
/// peer's all moved by one and the same shift.
pub open spec fn is_translation(
    layout: Seq<LayoutDisplay>,
    local: Seq<DisplayDescription>,
    local_device: DeviceId,
    peer: Seq<DisplayDescription>,
    peer_device: DeviceId,
    shift: Point,
) -> bool {
    &&& moved_by(layout, local, local_device, no_shift())
    &&& moved_by(layout, peer, peer_device, shift)
    &&& peer.len() > 0
    &&& layout.len() == local.len() + peer.len()
}

/// The one shift of a computer's displays, which has to be `known` where that is given.
fn shift_of(
    layout: &[LayoutDisplay],
    native: &DisplayTopology,
    device: DeviceId,
    known: Option<Point>,
) -> (shift: Result<Option<Point>, SessionFailure>)
    ensures
        match shift {
            Ok(Some(found)) => moved_by(layout@, native@, device, found) && (known is Some ==> known
                == Some(found)) && (known is None ==> native@.len() > 0),
            Ok(None) => known is None && native@.len() == 0,
            Err(error) => error == SessionFailure::InvalidLayout && forall|candidate: Point|
                (known matches Some(given) ==> given == candidate) ==> !#[trigger] moved_by(
                    layout@,
                    native@,
                    device,
                    candidate,
                ),
        },
{
    let mut shift = known;
    let mut index: usize = 0;
    while index < native.displays.len()
        invariant
            index <= native@.len(),
            native@ == native.displays@,
            known is Some ==> shift == known,
            known is None ==> (shift is Some) == (index > 0),
            shift matches Some(found) ==> moved_by(
                layout@,
                native@.take(index as int),
                device,
                found,
            ),
        decreases native@.len() - index,
    {
        let display = &native.displays[index];
        let ghost description = native@[index as int];
        let actual = match find_placed(layout, display.id) {
            Some(actual) => actual,
            None => {
                assert forall|candidate: Point| !#[trigger] moved_by(
                    layout@,
                    native@,
                    device,
                    candidate,
                ) by {
                    assert(native@[index as int] == description);
                }
                return Err(SessionFailure::InvalidLayout);
            },
        };
        if !actual.machine.same(&device) || actual.logical_size != display.logical_size
            || actual.native_width != display.native_width || actual.native_height
            != display.native_height || actual.scale_factor != display.scale_factor {
            assert forall|candidate: Point| !#[trigger] moved_by(
                layout@,
                native@,
                device,
                candidate,
            ) by {
                assert(native@[index as int] == description);
            }
            return Err(SessionFailure::InvalidLayout);
        }
        if let Some(previous) = shift {
            if previous != actual.shift {
                assert forall|candidate: Point|
                    (known matches Some(given) ==> given == candidate) implies !#[trigger] moved_by(
                    layout@,
                    native@,
                    device,
                    candidate,
                ) by {
                    assert(native@[index as int] == description);
                    if known is None {
                        assert(native@.take(index as int)[0] == native@[0]);
                    }
                }
                return Err(SessionFailure::InvalidLayout);
            }
        }
        shift = Some(actual.shift);
        assert(moved_by(layout@, native@.take(index + 1), device, actual.shift)) by {
            assert forall|i: int| 0 <= i < index + 1 implies (placed_display(
                layout@,
                (#[trigger] native@.take(index + 1)[i]).id,
            ) matches Some(placed) && placed.keeps(native@.take(index + 1)[i], device)
                && placed.shift == actual.shift) by {
                if i < index {
                    assert(native@.take(index as int)[i] == native@[i]);
                }
            }
        }
        index = index + 1;
    }
    assert(native@.take(index as int) =~= native@);
    Ok(shift)
}

/// Only a translation of the peer block is accepted. Wire coordinates stay native on each peer.
pub fn validate_topology(
    layout: &[LayoutDisplay],
    local: &DisplayTopology,
    local_device: DeviceId,
    peer: &DisplayTopology,
    peer_device: DeviceId,
) -> (offset: Result<Point, SessionFailure>)
    requires
        local@.len() + peer@.len() <= usize::MAX,
    ensures
        match offset {
            Ok(shift) => is_translation(
                layout@,
                local@,
                local_device,
                peer@,
                peer_device,
                shift,
            ),
            Err(error) => error == SessionFailure::InvalidLayout && forall|shift: Point|
                !#[trigger] is_translation(
                    layout@,
                    local@,
                    local_device,
                    peer@,
                    peer_device,
                    shift,
                ),
        },
{
    if let Err(error) = shift_of(layout, local, local_device, Some(Point { x: 0, y: 0 })) {
        assert(!moved_by(layout@, local@, local_device, no_shift()));
        return Err(error);
    }
    let offset = match shift_of(layout, peer, peer_device, None) {
        Ok(offset) => offset,
        Err(error) => return Err(error),
    };
    if layout.len() != local.displays.len() + peer.displays.len() {
        return Err(SessionFailure::InvalidLayout);
    }
    match offset {
        Some(shift) => Ok(shift),
        None => Err(SessionFailure::InvalidLayout),
    }
}

/// A layout that is accepted is accepted with one offset only.
pub proof fn law_the_peer_offset_is_unique(
    layout: Seq<LayoutDisplay>,
    local: Seq<DisplayDescription>,
    local_device: DeviceId,
    peer: Seq<DisplayDescription>,
    peer_device: DeviceId,
    first: Point,
    second: Point,
)
    requires
        is_translation(layout, local, local_device, peer, peer_device, first),
        is_translation(layout, local, local_device, peer, peer_device, second),
    ensures
        first == second,
{
    let display = peer[0];
    assert(placed_display(layout, display.id) is Some);
}

/// What a sharing session starts with.
#[derive(Clone, Copy, Debug, PartialEq, Eq, Structural)]
pub struct SessionStart {
    pub display: DisplayId,
    pub peer_offset: Point,
}

/// Checks a negotiated session against the saved layout before any native work.
pub fn begin_session(
    purpose: SessionPurpose,
    layout: &[LayoutDisplay],
    local: &DisplayTopology,
    local_device: DeviceId,
    peer: &DisplayTopology,
    peer_device: DeviceId,
) -> (start: Result<SessionStart, SessionFailure>)
    requires
        local@.len() + peer@.len() <= usize::MAX,
    ensures
        if purpose != SessionPurpose::Share {
            start == Err::<SessionStart, _>(SessionFailure::Destination)
        } else {
            match start {
                Ok(begun) => start_display(layout@, local_device) == Some(begun.display)
                    && is_translation(
                    layout@,
                    local@,
                    local_device,
                    peer@,
                    peer_device,
                    begun.peer_offset,
                ),
                Err(error) => error == SessionFailure::InvalidLayout && (start_display(
                    layout@,
                    local_device,
                ) is None || forall|shift: Point|
                    !#[trigger] is_translation(
                        layout@,
                        local@,
                        local_device,
                        peer@,
                        peer_device,
                        shift,
                    )),
            }
        },
{
    if purpose != SessionPurpose::Share {
        return Err(SessionFailure::Destination);
    }
    let display = match initial_display(layout, local_device) {
        Some(display) => display,
        None => return Err(SessionFailure::InvalidLayout),
    };
    match validate_topology(layout, local, local_device, peer, peer_device) {
        Ok(peer_offset) => Ok(SessionStart { display, peer_offset }),
        Err(error) => Err(error),
    }
}

/// What a frame of the peer is to the coordinator.
#[derive(Clone, Copy, Debug, PartialEq, Eq, Structural)]
pub enum FrameKind {
    /// The peer says goodbye.
    Goodbye,
    /// Anything else that belongs to no direction.
    Stray,
    Outbound,
    /// A heartbeat or the peer's readiness, which only the startup control reads.
    InboundControl,
    Inbound,
}

pub open spec fn kind_of_frame(frame: Frame, outbound: FrameScope) -> FrameKind {
    if frame.scope == FrameScope::Connection {
        if frame.message is Disconnect {
            FrameKind::Goodbye
        } else {
            FrameKind::Stray
        }
    } else if frame.scope == outbound {
        FrameKind::Outbound
    } else if frame.message.is_heartbeat_message() || frame.message is SessionReady {
        FrameKind::InboundControl
    } else {
        FrameKind::Inbound
    }
}

pub fn frame_kind(frame: &Frame, scopes: SessionScopes) -> (kind: FrameKind)
    ensures
        kind == kind_of_frame(*frame, scopes.outbound),
{
    if frame.scope == FrameScope::Connection {
        return match frame.message {
            Message::Disconnect => FrameKind::Goodbye,
            _ => FrameKind::Stray,
        };
    }
    if frame.scope == scopes.outbound {
        return FrameKind::Outbound;
    }
    let is_ready_message = match frame.message {
        Message::SessionReady => true,
        _ => false,
    };
    if frame.message.is_heartbeat() || is_ready_message {
        FrameKind::InboundControl
    } else {
        FrameKind::Inbound
    }
}

/// What woke the coordinator.
#[derive(Clone, Copy, Debug, PartialEq, Eq, Structural)]
pub enum Wake {
    Tick,
    Capture,
    Frame(FrameKind),
}

/// What the coordinator reads of its workers when it wakes.
#[derive(Clone, Copy, Debug)]
pub struct WorkerReport {
    pub stopping: bool,
    pub deliberate: bool,
    pub capture_stop: Option<StopReason>,
    pub capture_finished: bool,
    pub destination: Option<ActorFailure>,
    pub detail: ActorDetail,
    /// The capture worker that was starting is there, or is not going to be.
    pub startup_finished: bool,
}

/// A control change that the capture worker has not confirmed yet.
#[derive(Clone, Copy, Debug, PartialEq, Eq, Structural)]
pub struct Ticket {
    pub revision: u64,
    pub issued: Duration,
}

/// What the source's work leaves to the capture worker.
#[derive(Clone, Copy, Debug, PartialEq, Eq, Structural)]
pub struct Outcome {
    pub submitted: Option<Ticket>,
    /// Since when a change of the route waits for the capture worker.
    pub pending_since: Option<Duration>,
}

/// What the source says of itself and of the floor.
#[derive(Clone, Copy, Debug, PartialEq, Eq, Structural)]
pub struct SourceState {
    pub is_local: bool,
    pub is_held: bool,
    pub capture_is_remote: bool,
    pub floor_is_free: bool,
}

/// What renewing the suppression of local input gave.
#[derive(Clone, Copy, Debug, PartialEq, Eq, Structural)]
pub enum Renewal {
    Ticket(Ticket),
    ControlPending,
}

/// What the coordinator does next.
#[derive(Clone, Copy, Debug, PartialEq, Eq)]
pub enum Action {
    /// Wait for the next tick, captured event or frame.
    Wait,
    Observe,
    /// Take over the capture worker that finished starting.
    JoinCapture,
    StartDestination,
    CountReceived,
    /// Ask whether the inbound direction is ready for input.
    AskEarly,
    /// Keep the frame until the destination can take it.
    KeepFrame,
    /// Let the startup control of a direction read the frame.
    Receive(SessionHalf),
    SendAnswer(SessionHalf),
    SourceFrame,
    SubmitFrame,
    /// Ask the startup control of a direction for what it has to send.
    Poll(SessionHalf),
    SendPoll(SessionHalf),
    AskHealth(SessionHalf),
    ClaimNative,
    StartCapture,
    AskNativeReady,
    AskAnnounce(SessionHalf),
    Announce(SessionHalf),
    ReadyCapture,
    NextEvent,
    /// Account for the event; nothing leaves.
    Bookkeep,
    SourceEvent,
    AskReady(SessionHalf),
    /// Give the startup control of a direction up for what follows it.
    Retire(SessionHalf),
    HandOff,
    SubmitEarly,
    StampStart,
    NextResponse,
    SendResponse,
    AskStarted,
    MarkStarted,
    StampTick,
    CheckIo,
    AskRevision,
    TickSource,
    StampRoute,
    ApplyRoute,
    AskPointer,
    PollPointer,
    AskRenewal,
    Renew,
    ShowControl,
    /// The session is over: without a failure where the peer said goodbye.
    Stop(Option<SessionFailure>),
}

/// What came of an action.
#[derive(Clone, Copy, Debug)]
pub enum Reply {
    Woke(Wake, Duration),
    Workers(WorkerReport),
    Done,
    /// There was none.
    Nothing,
    /// There is a frame for the peer.
    Answer,
    /// There is an input event.
    Event,
    /// There is an event that is no input.
    Skipped,
    Is(bool),
    Now(Duration),
    /// The worker is gone without a word.
    Lost,
    Applied(Outcome),
    /// Whether the route was applied, and the control change that is out.
    Routed(bool, Option<Ticket>),
    /// The last control change that the capture worker confirmed.
    Revision(Option<u64>),
    Source(SourceState),
    Renewed(Renewal),
    Failed(SessionFailure),
}

/// The coordinator of a session: what it knows beside its workers and its connection, and what it
/// does next.
#[derive(Clone, Copy, Debug)]
pub struct Coordinator {
    pub action: Action,
    pub wake: Wake,
    /// When it woke.
    pub now: Duration,
    /// The directions are still starting.
    pub is_starting: bool,
    pub has_capture: bool,
    pub capture_is_starting: bool,
    pub has_permit: bool,
    pub has_destination: bool,
    /// How many frames came before the destination could take them.
    pub early_frames: usize,
    /// How many more events or responses this iteration takes.
    pub left: usize,
    pub drained: bool,
    pub submitted: Option<Ticket>,
    pub pending_since: Option<Duration>,
    pub last_renewed: Duration,
    pub last_pointer_poll: Duration,
    pub started_at: Option<Duration>,
    pub gaps: TickGap,
    /// How long the capture worker may take over a control change.
    pub limit: Duration,
}

/// The gap as it is after another tick.
pub open spec fn gap_after(gap: TickGap, now: Duration) -> TickGap {
    TickGap { last: now, max: longer(gap.max as nat, span(now as nat, gap.last as nat)) as u128 }
}

fn observed_gap(gap: TickGap, now: Duration) -> (seen: TickGap)
    ensures
        seen == gap_after(gap, now),
{
    let mut seen = gap;
    seen.observe(now);
    seen
}

impl Coordinator {
    pub fn new(now: Duration, limit: Duration) -> (coordinator: Coordinator)
        ensures
            coordinator == (Coordinator {
                action: Action::Wait,
                wake: Wake::Tick,
                now,
                is_starting: true,
                has_capture: false,
                capture_is_starting: false,
                has_permit: false,
                has_destination: false,
                early_frames: 0,
                left: 0,
                drained: false,
                submitted: None,
                pending_since: None,
                last_renewed: now,
                last_pointer_poll: now,
                started_at: None,
                gaps: TickGap { last: now, max: ZERO },
                limit,
            }),
            coordinator.wf(),
    {
        Coordinator {
            action: Action::Wait,
            wake: Wake::Tick,
            now,
            is_starting: true,
            has_capture: false,
            capture_is_starting: false,
            has_permit: false,
            has_destination: false,
            early_frames: 0,
            left: 0,
            drained: false,
            submitted: None,
            pending_since: None,
            last_renewed: now,
            last_pointer_poll: now,
            started_at: None,
            gaps: TickGap::new(now),
            limit,
        }
    }

    /// Goes on with an action.
    pub open spec fn in_action(self, action: Action) -> Coordinator {
        Coordinator { action, ..self }
    }

    /// Stops with a failure; a worker that was just joined is no longer starting.
    pub open spec fn in_failure(self, failure: SessionFailure) -> Coordinator {
        Coordinator {
            action: Action::Stop(Some(failure)),
            capture_is_starting: match self.action {
                Action::JoinCapture => false,
                _ => self.capture_is_starting,
            },
            ..self
        }
    }

    /// Asks whether the suppression of local input is due.
    pub open spec fn in_renewal(self) -> Coordinator {
        self.in_action(Action::AskRenewal)
    }

    /// Asks whether the pointer may be polled.
    pub open spec fn in_pointer(self) -> Coordinator {
        self.in_action(Action::AskPointer)
    }

    /// Looks after the control change that is out, or lets the source tick.
    pub open spec fn in_ticket(self) -> Coordinator {
        if self.submitted is None {
            self.in_action(Action::TickSource)
        } else {
            self.in_action(Action::AskRevision)
        }
    }

    /// After the connection was checked.
    pub open spec fn in_housekeeping(self) -> Coordinator {
        if self.is_starting {
            self.in_action(Action::Wait)
        } else if !self.has_capture {
            self.in_failure(SessionFailure::Native)
        } else {
            self.in_ticket()
        }
    }

    /// A tick ends with housekeeping.
    pub open spec fn in_tick(self) -> Coordinator {
        match self.wake {
            Wake::Tick => self.in_action(Action::StampTick),
            _ => self.in_action(Action::Wait),
        }
    }

    /// After the responses: did the destination start?
    pub open spec fn in_start(self) -> Coordinator {
        if self.is_starting {
            self.in_tick()
        } else {
            self.in_action(Action::AskStarted)
        }
    }

    /// Takes what the destination has for the peer.
    pub open spec fn in_responses(self) -> Coordinator {
        if self.has_destination {
            Coordinator { action: Action::NextResponse, left: SESSION_QUEUE_CAPACITY, ..self }
        } else {
            self.in_tick()
        }
    }

    /// Gives the destination what came early, one by one.
    pub open spec fn in_early(self) -> Coordinator {
        if self.early_frames > 0 {
            self.in_action(Action::SubmitEarly)
        } else {
            self.in_action(Action::StampStart)
        }
    }

    /// Hands the directions over once everything captured is accounted for.
    pub open spec fn in_handover(self) -> Coordinator {
        if self.is_starting && self.drained {
            self.in_action(Action::AskReady(SessionHalf::Outbound))
        } else {
            self.in_responses()
        }
    }

    /// Takes what was captured.
    pub open spec fn in_drain(self) -> Coordinator {
        if self.has_capture {
            Coordinator {
                action: Action::ReadyCapture,
                drained: false,
                left: DRAIN_LIMIT,
                ..self
            }
        } else {
            Coordinator { drained: false, ..self }.in_handover()
        }
    }

    /// Takes another event while the iteration may.
    pub open spec fn in_next_event(self) -> Coordinator {
        if self.left > 1 {
            Coordinator { action: Action::NextEvent, left: (self.left - 1) as usize, ..self }
        } else {
            self.in_handover()
        }
    }

    /// Announces readiness once both native workers are there.
    pub open spec fn in_announcement(self) -> Coordinator {
        if self.has_capture && self.has_destination {
            self.in_action(Action::AskNativeReady)
        } else {
            self.in_drain()
        }
    }

    /// Starts the capture worker once both directions proved healthy.
    pub open spec fn in_health(self) -> Coordinator {
        if !self.has_capture && !self.capture_is_starting {
            self.in_action(Action::AskHealth(SessionHalf::Outbound))
        } else {
            self.in_announcement()
        }
    }

    /// Keeps the directions starting, or goes on to what was captured.
    pub open spec fn in_startup(self) -> Coordinator {
        if self.is_starting {
            self.in_action(Action::Poll(SessionHalf::Outbound))
        } else {
            self.in_drain()
        }
    }

    /// Reads the frame that woke it.
    pub open spec fn in_frame(self) -> Coordinator {
        match self.wake {
            Wake::Frame(FrameKind::Goodbye) => self.in_action(Action::Stop(None)),
            Wake::Frame(FrameKind::Stray) => self.in_failure(SessionFailure::Wire),
            Wake::Frame(_) => self.in_action(Action::CountReceived),
            _ => self.in_startup(),
        }
    }

    /// Where the frame goes.
    pub open spec fn in_delivery(self) -> Coordinator {
        match self.wake {
            Wake::Frame(FrameKind::Outbound) => if self.is_starting {
                self.in_action(Action::Receive(SessionHalf::Outbound))
            } else if self.has_capture {
                self.in_action(Action::SourceFrame)
            } else {
                self.in_failure(SessionFailure::Native)
            },
            Wake::Frame(FrameKind::InboundControl) if self.is_starting => {
                self.in_action(Action::Receive(SessionHalf::Inbound))
            },
            Wake::Frame(FrameKind::Inbound) if self.is_starting => self.in_action(Action::AskEarly),
            Wake::Frame(_) => if self.has_destination {
                self.in_action(Action::SubmitFrame)
            } else {
                self.in_failure(SessionFailure::Destination)
            },
            _ => self.in_startup(),
        }
    }

    /// Why it has to stop now, if it has.
    pub open spec fn in_report(self, report: WorkerReport) -> Coordinator {
        match workers_end(
            report.stopping,
            report.deliberate,
            report.capture_stop,
            report.capture_finished,
            report.destination,
            report.detail,
        ) {
            Some(failure) => self.in_failure(failure),
            None => if self.capture_is_starting && report.startup_finished {
                self.in_action(Action::JoinCapture)
            } else {
                self.in_frame()
            },
        }
    }

    /// The capture worker has to confirm a control change in time.
    pub open spec fn in_revision(self, completed: Option<u64>) -> Coordinator {
        match (self.submitted, completed) {
            (Some(ticket), Some(revision)) => if revision >= ticket.revision {
                Coordinator { action: Action::TickSource, submitted: None, ..self }
            } else if span(self.now as nat, ticket.issued as nat) < self.limit {
                self.in_action(Action::TickSource)
            } else {
                self.in_failure(SessionFailure::Native)
            },
            (Some(_), None) => self.in_failure(SessionFailure::Native),
            (None, _) => self.in_action(Action::TickSource),
        }
    }

    /// Tries a change of the route again that waited.
    pub open spec fn in_route(self) -> Coordinator {
        if self.pending_since is None {
            self.in_pointer()
        } else {
            self.in_action(Action::StampRoute)
        }
    }

    /// A change of the route that waits too long ends the session.
    pub open spec fn in_due_route(self, now: Duration) -> Coordinator {
        match self.pending_since {
            Some(since) => if span(now as nat, since as nat) >= self.limit {
                self.in_failure(SessionFailure::Native)
            } else {
                self.in_action(Action::ApplyRoute)
            },
            None => self.in_pointer(),
        }
    }

    /// The pointer is polled while nobody holds the floor, no input is taken away and no change of the
    /// route waits.
    pub open spec fn in_due_pointer(self, source: SourceState) -> Coordinator {
        if source.is_local && source.floor_is_free && !source.capture_is_remote
            && self.pending_since is None && span(self.now as nat, self.last_pointer_poll as nat) >= POINTER_POLL_INTERVAL {
            Coordinator { action: Action::PollPointer, last_pointer_poll: self.now, ..self }
        } else {
            self.in_renewal()
        }
    }

    /// The suppression of local input is renewed while it is in force and the session does not hold.
    pub open spec fn in_due_renewal(self, source: SourceState) -> Coordinator {
        if !source.is_held && source.capture_is_remote && self.pending_since is None
            && self.submitted is None && span(self.now as nat, self.last_renewed as nat) >= DISPLAY_CHECK_INTERVAL {
            self.in_action(Action::Renew)
        } else {
            self.in_action(Action::ShowControl)
        }
    }

    /// After waking up.
    pub open spec fn in_waking(self, reply: Reply) -> Coordinator {
        match self.action {
            Action::Wait => match reply {
                    Reply::Woke(wake, now) => Coordinator {
                        action: Action::Observe,
                        wake,
                        now,
                        ..self
                    },
                    _ => self,
                },
            Action::Observe => match reply {
                    Reply::Workers(report) => self.in_report(report),
                    _ => self,
                },
            Action::JoinCapture => match reply {
                    Reply::Done => if self.has_permit {
                        Coordinator {
                            action: Action::StartDestination,
                            has_capture: true,
                            capture_is_starting: false,
                            has_permit: false,
                            ..self
                        }
                    } else {
                        Coordinator { has_capture: true, ..self }.in_failure(
                            SessionFailure::Destination,
                        )
                    },
                    Reply::Lost => self.in_failure(
                        SessionFailure::Startup(SessionStartupFailure::CaptureWorkerUnavailable),
                    ),
                    _ => self,
                },
            Action::StartDestination => match reply {
                    Reply::Done => Coordinator { has_destination: true, ..self }.in_frame(),
                    _ => self,
                },
            _ => self,
        }
    }

    /// With the frame that woke it.
    pub open spec fn in_reading(self, reply: Reply) -> Coordinator {
        match self.action {
            Action::CountReceived => match reply {
                    Reply::Done => self.in_delivery(),
                    _ => self,
                },
            Action::AskEarly => match reply {
                    Reply::Is(true) => if self.early_frames >= SESSION_QUEUE_CAPACITY {
                        self.in_failure(SessionFailure::QueueFull)
                    } else {
                        Coordinator {
                            action: Action::KeepFrame,
                            early_frames: (self.early_frames + 1) as usize,
                            ..self
                        }
                    },
                    Reply::Is(false) => self.in_action(Action::Receive(SessionHalf::Inbound)),
                    _ => self,
                },
            Action::KeepFrame => match reply {
                    Reply::Done => self.in_startup(),
                    _ => self,
                },
            Action::Receive(half) => match reply {
                    Reply::Answer => self.in_action(Action::SendAnswer(half)),
                    Reply::Nothing => self.in_startup(),
                    _ => self,
                },
            Action::SendAnswer(_) => match reply {
                    Reply::Done => self.in_startup(),
                    _ => self,
                },
            Action::SourceFrame => match reply {
                    Reply::Applied(outcome) => Coordinator {
                        submitted: outcome.submitted,
                        pending_since: outcome.pending_since,
                        ..self
                    }.in_startup(),
                    _ => self,
                },
            Action::SubmitFrame => match reply {
                    Reply::Done => self.in_startup(),
                    _ => self,
                },
            _ => self,
        }
    }

    /// While the directions start.
    pub open spec fn in_starting(self, reply: Reply) -> Coordinator {
        match self.action {
            Action::Poll(SessionHalf::Outbound) => match reply {
                    Reply::Answer => self.in_action(Action::SendPoll(SessionHalf::Outbound)),
                    Reply::Nothing => self.in_action(Action::Poll(SessionHalf::Inbound)),
                    _ => self,
                },
            Action::SendPoll(SessionHalf::Outbound) => match reply {
                    Reply::Done => self.in_action(Action::Poll(SessionHalf::Inbound)),
                    _ => self,
                },
            Action::Poll(SessionHalf::Inbound) => match reply {
                    Reply::Answer => self.in_action(Action::SendPoll(SessionHalf::Inbound)),
                    Reply::Nothing => self.in_health(),
                    _ => self,
                },
            Action::SendPoll(SessionHalf::Inbound) => match reply {
                    Reply::Done => self.in_health(),
                    _ => self,
                },
            Action::AskHealth(SessionHalf::Outbound) => match reply {
                    Reply::Is(true) => self.in_action(Action::AskHealth(SessionHalf::Inbound)),
                    Reply::Is(false) => self.in_announcement(),
                    _ => self,
                },
            Action::AskHealth(SessionHalf::Inbound) => match reply {
                    Reply::Is(true) => self.in_action(Action::ClaimNative),
                    Reply::Is(false) => self.in_announcement(),
                    _ => self,
                },
            Action::ClaimNative => match reply {
                    Reply::Is(true) => Coordinator { action: Action::StartCapture, has_permit: true, ..self },
                    Reply::Is(false) => self.in_failure(
                        SessionFailure::Startup(SessionStartupFailure::NativeOwnershipUnavailable),
                    ),
                    _ => self,
                },
            Action::StartCapture => match reply {
                    Reply::Done => Coordinator { capture_is_starting: true, ..self }.in_announcement(),
                    _ => self,
                },
            _ => self,
        }
    }

    /// Once the native workers are there.
    pub open spec fn in_announcing(self, reply: Reply) -> Coordinator {
        match self.action {
            Action::AskNativeReady => match reply {
                    Reply::Is(true) => self.in_action(Action::AskAnnounce(SessionHalf::Inbound)),
                    Reply::Is(false) => self.in_drain(),
                    _ => self,
                },
            Action::AskAnnounce(SessionHalf::Inbound) => match reply {
                    Reply::Is(true) => self.in_action(Action::Announce(SessionHalf::Inbound)),
                    Reply::Is(false) => self.in_action(Action::AskAnnounce(SessionHalf::Outbound)),
                    _ => self,
                },
            Action::Announce(SessionHalf::Inbound) => match reply {
                    Reply::Done => self.in_action(Action::AskAnnounce(SessionHalf::Outbound)),
                    _ => self,
                },
            Action::AskAnnounce(SessionHalf::Outbound) => match reply {
                    Reply::Is(true) => self.in_action(Action::Announce(SessionHalf::Outbound)),
                    Reply::Is(false) => self.in_drain(),
                    _ => self,
                },
            Action::Announce(SessionHalf::Outbound) => match reply {
                    Reply::Done => self.in_drain(),
                    _ => self,
                },
            _ => self,
        }
    }

    /// With what was captured.
    pub open spec fn in_capturing(self, reply: Reply) -> Coordinator {
        match self.action {
            Action::ReadyCapture => match reply {
                    Reply::Done => self.in_action(Action::NextEvent),
                    _ => self,
                },
            Action::NextEvent => match reply {
                    Reply::Nothing => Coordinator { drained: true, ..self }.in_handover(),
                    Reply::Skipped => self.in_next_event(),
                    Reply::Event => if self.is_starting {
                        self.in_action(Action::Bookkeep)
                    } else {
                        self.in_action(Action::SourceEvent)
                    },
                    _ => self,
                },
            Action::Bookkeep => match reply {
                    Reply::Done => self.in_next_event(),
                    _ => self,
                },
            Action::SourceEvent => match reply {
                    Reply::Applied(outcome) => Coordinator {
                        submitted: outcome.submitted,
                        pending_since: outcome.pending_since,
                        ..self
                    }.in_next_event(),
                    _ => self,
                },
            _ => self,
        }
    }

    /// While the directions are handed over.
    pub open spec fn in_handing(self, reply: Reply) -> Coordinator {
        match self.action {
            Action::AskReady(SessionHalf::Outbound) => match reply {
                    Reply::Is(true) => self.in_action(Action::AskReady(SessionHalf::Inbound)),
                    Reply::Is(false) => self.in_responses(),
                    _ => self,
                },
            Action::AskReady(SessionHalf::Inbound) => match reply {
                    Reply::Is(true) => self.in_action(Action::Retire(SessionHalf::Outbound)),
                    Reply::Is(false) => self.in_responses(),
                    _ => self,
                },
            Action::Retire(SessionHalf::Outbound) => match reply {
                    Reply::Done => self.in_action(Action::Retire(SessionHalf::Inbound)),
                    _ => self,
                },
            Action::Retire(SessionHalf::Inbound) => match reply {
                    Reply::Done => if self.has_destination {
                        self.in_action(Action::HandOff)
                    } else {
                        self.in_failure(SessionFailure::Destination)
                    },
                    _ => self,
                },
            Action::HandOff => match reply {
                    Reply::Done => self.in_early(),
                    _ => self,
                },
            Action::SubmitEarly => match reply {
                    Reply::Done => if self.early_frames > 0 {
                        Coordinator { early_frames: (self.early_frames - 1) as usize, ..self }.in_early()
                    } else {
                        self.in_early()
                    },
                    _ => self,
                },
            Action::StampStart => match reply {
                    Reply::Now(now) => Coordinator {
                        is_starting: false,
                        started_at: Some(now),
                        ..self
                    }.in_responses(),
                    _ => self,
                },
            _ => self,
        }
    }

    /// With what the destination has for the peer.
    pub open spec fn in_answering(self, reply: Reply) -> Coordinator {
        match self.action {
            Action::NextResponse => match reply {
                    Reply::Answer => self.in_action(Action::SendResponse),
                    Reply::Nothing => self.in_start(),
                    _ => self,
                },
            Action::SendResponse => match reply {
                    Reply::Done => if self.left > 1 {
                        Coordinator { action: Action::NextResponse, left: (self.left - 1) as usize, ..self }
                    } else {
                        self.in_start()
                    },
                    _ => self,
                },
            Action::AskStarted => match reply {
                    Reply::Is(true) => self.in_action(Action::MarkStarted),
                    Reply::Is(false) => self.in_tick(),
                    _ => self,
                },
            Action::MarkStarted => match reply {
                    Reply::Done => self.in_tick(),
                    _ => self,
                },
            _ => self,
        }
    }

    /// On a tick.
    pub open spec fn in_ticking(self, reply: Reply) -> Coordinator {
        match self.action {
            Action::StampTick => match reply {
                    Reply::Now(now) => Coordinator { action: Action::CheckIo, gaps: gap_after(self.gaps, now), ..self },
                    _ => self,
                },
            Action::CheckIo => match reply {
                    Reply::Done => self.in_housekeeping(),
                    _ => self,
                },
            Action::AskRevision => match reply {
                    Reply::Revision(completed) => self.in_revision(completed),
                    _ => self,
                },
            Action::TickSource => match reply {
                    Reply::Applied(outcome) => Coordinator {
                        submitted: outcome.submitted,
                        pending_since: outcome.pending_since,
                        ..self
                    }.in_route(),
                    _ => self,
                },
            Action::StampRoute => match reply {
                    Reply::Now(now) => self.in_due_route(now),
                    _ => self,
                },
            Action::ApplyRoute => match reply {
                    Reply::Routed(was_applied, submitted) => Coordinator {
                        submitted,
                        pending_since: if was_applied {
                            None
                        } else {
                            self.pending_since
                        },
                        ..self
                    }.in_pointer(),
                    _ => self,
                },
            _ => self,
        }
    }

    /// At the end of a tick.
    pub open spec fn in_keeping(self, reply: Reply) -> Coordinator {
        match self.action {
            Action::AskPointer => match reply {
                    Reply::Source(source) => self.in_due_pointer(source),
                    _ => self,
                },
            Action::PollPointer => match reply {
                    Reply::Applied(outcome) => Coordinator {
                        submitted: outcome.submitted,
                        pending_since: outcome.pending_since,
                        ..self
                    }.in_renewal(),
                    Reply::Nothing => self.in_renewal(),
                    _ => self,
                },
            Action::AskRenewal => match reply {
                    Reply::Source(source) => self.in_due_renewal(source),
                    _ => self,
                },
            Action::Renew => match reply {
                    Reply::Renewed(Renewal::Ticket(ticket)) => Coordinator {
                        action: Action::ShowControl,
                        submitted: Some(ticket),
                        last_renewed: ticket.issued,
                        ..self
                    },
                    Reply::Renewed(Renewal::ControlPending) => self.in_action(Action::ShowControl),
                    _ => self,
                },
            Action::ShowControl => match reply {
                    Reply::Done => self.in_action(Action::Wait),
                    _ => self,
                },
            _ => self,
        }
    }

    /// What follows an action that did not fail. A reply that the action does not have leaves
    /// everything as it is.
    pub open spec fn in_reply(self, reply: Reply) -> Coordinator {
        match self.action {
            Action::Wait
            | Action::Observe
            | Action::JoinCapture
            | Action::StartDestination => self.in_waking(reply),
            Action::CountReceived
            | Action::AskEarly
            | Action::KeepFrame
            | Action::Receive(_)
            | Action::SendAnswer(_)
            | Action::SourceFrame
            | Action::SubmitFrame => self.in_reading(reply),
            Action::Poll(_)
            | Action::SendPoll(_)
            | Action::AskHealth(_)
            | Action::ClaimNative
            | Action::StartCapture => self.in_starting(reply),
            Action::AskNativeReady
            | Action::AskAnnounce(_)
            | Action::Announce(_) => self.in_announcing(reply),
            Action::ReadyCapture
            | Action::NextEvent
            | Action::Bookkeep
            | Action::SourceEvent => self.in_capturing(reply),
            Action::AskReady(_)
            | Action::Retire(_)
            | Action::HandOff
            | Action::SubmitEarly
            | Action::StampStart => self.in_handing(reply),
            Action::NextResponse
            | Action::SendResponse
            | Action::AskStarted
            | Action::MarkStarted => self.in_answering(reply),
            Action::StampTick
            | Action::CheckIo
            | Action::AskRevision
            | Action::TickSource
            | Action::StampRoute
            | Action::ApplyRoute => self.in_ticking(reply),
            Action::AskPointer
            | Action::PollPointer
            | Action::AskRenewal
            | Action::Renew
            | Action::ShowControl => self.in_keeping(reply),
            Action::Stop(_) => self,
        }
    }

    /// What follows an action. The end of a session is final, and a failure ends it.
    pub open spec fn after(self, reply: Reply) -> Coordinator {
        match (self.action, reply) {
            (Action::Stop(_), _) => self,
            (_, Reply::Failed(failure)) => self.in_failure(failure),
            _ => self.in_reply(reply),
        }
    }

    fn to_action(self, action: Action) -> (next: Coordinator)
        ensures
            next == self.in_action(action),
    {
        Coordinator { action, ..self }
    }

    fn to_failure(self, failure: SessionFailure) -> (next: Coordinator)
        ensures
            next == self.in_failure(failure),
    {
        Coordinator {
            action: Action::Stop(Some(failure)),
            capture_is_starting: match self.action {
                Action::JoinCapture => false,
                _ => self.capture_is_starting,
            },
            ..self
        }
    }

    fn to_renewal(self) -> (next: Coordinator)
        ensures
            next == self.in_renewal(),
    {
        self.to_action(Action::AskRenewal)
    }

    fn to_pointer(self) -> (next: Coordinator)
        ensures
            next == self.in_pointer(),
    {
        self.to_action(Action::AskPointer)
    }

    fn to_ticket(self) -> (next: Coordinator)
        ensures
            next == self.in_ticket(),
    {
        if self.submitted.is_none() {
            self.to_action(Action::TickSource)
        } else {
            self.to_action(Action::AskRevision)
        }
    }

    fn to_housekeeping(self) -> (next: Coordinator)
        ensures
            next == self.in_housekeeping(),
    {
        if self.is_starting {
            self.to_action(Action::Wait)
        } else if !self.has_capture {
            self.to_failure(SessionFailure::Native)
        } else {
            self.to_ticket()
        }
    }

    fn to_tick(self) -> (next: Coordinator)
        ensures
            next == self.in_tick(),
    {
        match self.wake {
            Wake::Tick => self.to_action(Action::StampTick),
            _ => self.to_action(Action::Wait),
        }
    }

    fn to_start(self) -> (next: Coordinator)
        ensures
            next == self.in_start(),
    {
        if self.is_starting {
            self.to_tick()
        } else {
            self.to_action(Action::AskStarted)
        }
    }

    fn to_responses(self) -> (next: Coordinator)
        ensures
            next == self.in_responses(),
    {
        if self.has_destination {
            Coordinator { action: Action::NextResponse, left: SESSION_QUEUE_CAPACITY, ..self }
        } else {
            self.to_tick()
        }
    }

    fn to_early(self) -> (next: Coordinator)
        ensures
            next == self.in_early(),
    {
        if self.early_frames > 0 {
            self.to_action(Action::SubmitEarly)
        } else {
            self.to_action(Action::StampStart)
        }
    }

    fn to_handover(self) -> (next: Coordinator)
        ensures
            next == self.in_handover(),
    {
        if self.is_starting && self.drained {
            self.to_action(Action::AskReady(SessionHalf::Outbound))
        } else {
            self.to_responses()
        }
    }

    fn to_drain(self) -> (next: Coordinator)
        ensures
            next == self.in_drain(),
    {
        if self.has_capture {
            Coordinator {
                action: Action::ReadyCapture,
                drained: false,
                left: DRAIN_LIMIT,
                ..self
            }
        } else {
            Coordinator { drained: false, ..self }.to_handover()
        }
    }

    fn to_next_event(self) -> (next: Coordinator)
        ensures
            next == self.in_next_event(),
    {
        if self.left > 1 {
            Coordinator { action: Action::NextEvent, left: self.left - 1, ..self }
        } else {
            self.to_handover()
        }
    }

    fn to_announcement(self) -> (next: Coordinator)
        ensures
            next == self.in_announcement(),
    {
        if self.has_capture && self.has_destination {
            self.to_action(Action::AskNativeReady)
        } else {
            self.to_drain()
        }
    }

    fn to_health(self) -> (next: Coordinator)
        ensures
            next == self.in_health(),
    {
        if !self.has_capture && !self.capture_is_starting {
            self.to_action(Action::AskHealth(SessionHalf::Outbound))
        } else {
            self.to_announcement()
        }
    }

    fn to_startup(self) -> (next: Coordinator)
        ensures
            next == self.in_startup(),
    {
        if self.is_starting {
            self.to_action(Action::Poll(SessionHalf::Outbound))
        } else {
            self.to_drain()
        }
    }

    fn to_frame(self) -> (next: Coordinator)
        ensures
            next == self.in_frame(),
    {
        match self.wake {
            Wake::Frame(FrameKind::Goodbye) => self.to_action(Action::Stop(None)),
            Wake::Frame(FrameKind::Stray) => self.to_failure(SessionFailure::Wire),
            Wake::Frame(_) => self.to_action(Action::CountReceived),
            _ => self.to_startup(),
        }
    }

    fn to_delivery(self) -> (next: Coordinator)
        ensures
            next == self.in_delivery(),
    {
        match self.wake {
            Wake::Frame(FrameKind::Outbound) => if self.is_starting {
                self.to_action(Action::Receive(SessionHalf::Outbound))
            } else if self.has_capture {
                self.to_action(Action::SourceFrame)
            } else {
                self.to_failure(SessionFailure::Native)
            },
            Wake::Frame(FrameKind::InboundControl) if self.is_starting => {
                self.to_action(Action::Receive(SessionHalf::Inbound))
            },
            Wake::Frame(FrameKind::Inbound) if self.is_starting => self.to_action(Action::AskEarly),
            Wake::Frame(_) => if self.has_destination {
                self.to_action(Action::SubmitFrame)
            } else {
                self.to_failure(SessionFailure::Destination)
            },
            _ => self.to_startup(),
        }
    }

    fn to_report(self, report: WorkerReport) -> (next: Coordinator)
        ensures
            next == self.in_report(report),
    {
        match worker_end(
            report.stopping,
            report.deliberate,
            report.capture_stop,
            report.capture_finished,
            report.destination,
            report.detail,
        ) {
            Some(failure) => self.to_failure(failure),
            None => if self.capture_is_starting && report.startup_finished {
                self.to_action(Action::JoinCapture)
            } else {
                self.to_frame()
            },
        }
    }

    fn to_revision(self, completed: Option<u64>) -> (next: Coordinator)
        ensures
            next == self.in_revision(completed),
    {
        match (self.submitted, completed) {
            (Some(ticket), Some(revision)) => if revision >= ticket.revision {
                Coordinator { action: Action::TickSource, submitted: None, ..self }
            } else if self.now.saturating_sub(ticket.issued) < self.limit {
                self.to_action(Action::TickSource)
            } else {
                self.to_failure(SessionFailure::Native)
            },
            (Some(_), None) => self.to_failure(SessionFailure::Native),
            (None, _) => self.to_action(Action::TickSource),
        }
    }

    fn to_route(self) -> (next: Coordinator)
        ensures
            next == self.in_route(),
    {
        if self.pending_since.is_none() {
            self.to_pointer()
        } else {
            self.to_action(Action::StampRoute)
        }
    }

    fn to_due_route(self, now: Duration) -> (next: Coordinator)
        ensures
            next == self.in_due_route(now),
    {
        match self.pending_since {
            Some(since) => if now.saturating_sub(since) >= self.limit {
                self.to_failure(SessionFailure::Native)
            } else {
                self.to_action(Action::ApplyRoute)
            },
            None => self.to_pointer(),
        }
    }

    fn to_due_pointer(self, source: SourceState) -> (next: Coordinator)
        ensures
            next == self.in_due_pointer(source),
    {
        if source.is_local && source.floor_is_free && !source.capture_is_remote
            && self.pending_since.is_none() && self.now.saturating_sub(self.last_pointer_poll) >= POINTER_POLL_INTERVAL {
            Coordinator { action: Action::PollPointer, last_pointer_poll: self.now, ..self }
        } else {
            self.to_renewal()
        }
    }

    fn to_due_renewal(self, source: SourceState) -> (next: Coordinator)
        ensures
            next == self.in_due_renewal(source),
    {
        if !source.is_held && source.capture_is_remote && self.pending_since.is_none()
            && self.submitted.is_none() && self.now.saturating_sub(self.last_renewed) >= DISPLAY_CHECK_INTERVAL {
            self.to_action(Action::Renew)
        } else {
            self.to_action(Action::ShowControl)
        }
    }

    fn to_waking(self, reply: Reply) -> (next: Coordinator)
        ensures
            next == self.in_waking(reply),
    {
        match self.action {
            Action::Wait => match reply {
                    Reply::Woke(wake, now) => Coordinator {
                        action: Action::Observe,
                        wake,
                        now,
                        ..self
                    },
                    _ => self,
                },
            Action::Observe => match reply {
                    Reply::Workers(report) => self.to_report(report),
                    _ => self,
                },
            Action::JoinCapture => match reply {
                    Reply::Done => if self.has_permit {
                        Coordinator {
                            action: Action::StartDestination,
                            has_capture: true,
                            capture_is_starting: false,
                            has_permit: false,
                            ..self
                        }
                    } else {
                        Coordinator { has_capture: true, ..self }.to_failure(
                            SessionFailure::Destination,
                        )
                    },
                    Reply::Lost => self.to_failure(
                        SessionFailure::Startup(SessionStartupFailure::CaptureWorkerUnavailable),
                    ),
                    _ => self,
                },
            Action::StartDestination => match reply {
                    Reply::Done => Coordinator { has_destination: true, ..self }.to_frame(),
                    _ => self,
                },
            _ => self,
        }
    }

    fn to_reading(self, reply: Reply) -> (next: Coordinator)
        ensures
            next == self.in_reading(reply),
    {
        match self.action {
            Action::CountReceived => match reply {
                    Reply::Done => self.to_delivery(),
                    _ => self,
                },
            Action::AskEarly => match reply {
                    Reply::Is(true) => if self.early_frames >= SESSION_QUEUE_CAPACITY {
                        self.to_failure(SessionFailure::QueueFull)
                    } else {
                        Coordinator {
                            action: Action::KeepFrame,
                            early_frames: self.early_frames + 1,
                            ..self
                        }
                    },
                    Reply::Is(false) => self.to_action(Action::Receive(SessionHalf::Inbound)),
                    _ => self,
                },
            Action::KeepFrame => match reply {
                    Reply::Done => self.to_startup(),
                    _ => self,
                },
            Action::Receive(half) => match reply {
                    Reply::Answer => self.to_action(Action::SendAnswer(half)),
                    Reply::Nothing => self.to_startup(),
                    _ => self,
                },
            Action::SendAnswer(_) => match reply {
                    Reply::Done => self.to_startup(),
                    _ => self,
                },
            Action::SourceFrame => match reply {
                    Reply::Applied(outcome) => Coordinator {
                        submitted: outcome.submitted,
                        pending_since: outcome.pending_since,
                        ..self
                    }.to_startup(),
                    _ => self,
                },
            Action::SubmitFrame => match reply {
                    Reply::Done => self.to_startup(),
                    _ => self,
                },
            _ => self,
        }
    }

    fn to_starting(self, reply: Reply) -> (next: Coordinator)
        ensures
            next == self.in_starting(reply),
    {
        match self.action {
            Action::Poll(SessionHalf::Outbound) => match reply {
                    Reply::Answer => self.to_action(Action::SendPoll(SessionHalf::Outbound)),
                    Reply::Nothing => self.to_action(Action::Poll(SessionHalf::Inbound)),
                    _ => self,
                },
            Action::SendPoll(SessionHalf::Outbound) => match reply {
                    Reply::Done => self.to_action(Action::Poll(SessionHalf::Inbound)),
                    _ => self,
                },
            Action::Poll(SessionHalf::Inbound) => match reply {
                    Reply::Answer => self.to_action(Action::SendPoll(SessionHalf::Inbound)),
                    Reply::Nothing => self.to_health(),
                    _ => self,
                },
            Action::SendPoll(SessionHalf::Inbound) => match reply {
                    Reply::Done => self.to_health(),
                    _ => self,
                },
            Action::AskHealth(SessionHalf::Outbound) => match reply {
                    Reply::Is(true) => self.to_action(Action::AskHealth(SessionHalf::Inbound)),
                    Reply::Is(false) => self.to_announcement(),
                    _ => self,
                },
            Action::AskHealth(SessionHalf::Inbound) => match reply {
                    Reply::Is(true) => self.to_action(Action::ClaimNative),
                    Reply::Is(false) => self.to_announcement(),
                    _ => self,
                },
            Action::ClaimNative => match reply {
                    Reply::Is(true) => Coordinator { action: Action::StartCapture, has_permit: true, ..self },
                    Reply::Is(false) => self.to_failure(
                        SessionFailure::Startup(SessionStartupFailure::NativeOwnershipUnavailable),
                    ),
                    _ => self,
                },
            Action::StartCapture => match reply {
                    Reply::Done => Coordinator { capture_is_starting: true, ..self }.to_announcement(),
                    _ => self,
                },
            _ => self,
        }
    }

    fn to_announcing(self, reply: Reply) -> (next: Coordinator)
        ensures
            next == self.in_announcing(reply),
    {
        match self.action {
            Action::AskNativeReady => match reply {
                    Reply::Is(true) => self.to_action(Action::AskAnnounce(SessionHalf::Inbound)),
                    Reply::Is(false) => self.to_drain(),
                    _ => self,
                },
            Action::AskAnnounce(SessionHalf::Inbound) => match reply {
                    Reply::Is(true) => self.to_action(Action::Announce(SessionHalf::Inbound)),
                    Reply::Is(false) => self.to_action(Action::AskAnnounce(SessionHalf::Outbound)),
                    _ => self,
                },
            Action::Announce(SessionHalf::Inbound) => match reply {
                    Reply::Done => self.to_action(Action::AskAnnounce(SessionHalf::Outbound)),
                    _ => self,
                },
            Action::AskAnnounce(SessionHalf::Outbound) => match reply {
                    Reply::Is(true) => self.to_action(Action::Announce(SessionHalf::Outbound)),
                    Reply::Is(false) => self.to_drain(),
                    _ => self,
                },
            Action::Announce(SessionHalf::Outbound) => match reply {
                    Reply::Done => self.to_drain(),
                    _ => self,
                },
            _ => self,
        }
    }

    fn to_capturing(self, reply: Reply) -> (next: Coordinator)
        ensures
            next == self.in_capturing(reply),
    {
        match self.action {
            Action::ReadyCapture => match reply {
                    Reply::Done => self.to_action(Action::NextEvent),
                    _ => self,
                },
            Action::NextEvent => match reply {
                    Reply::Nothing => Coordinator { drained: true, ..self }.to_handover(),
                    Reply::Skipped => self.to_next_event(),
                    Reply::Event => if self.is_starting {
                        self.to_action(Action::Bookkeep)
                    } else {
                        self.to_action(Action::SourceEvent)
                    },
                    _ => self,
                },
            Action::Bookkeep => match reply {
                    Reply::Done => self.to_next_event(),
                    _ => self,
                },
            Action::SourceEvent => match reply {
                    Reply::Applied(outcome) => Coordinator {
                        submitted: outcome.submitted,
                        pending_since: outcome.pending_since,
                        ..self
                    }.to_next_event(),
                    _ => self,
                },
            _ => self,
        }
    }

    fn to_handing(self, reply: Reply) -> (next: Coordinator)
        ensures
            next == self.in_handing(reply),
    {
        match self.action {
            Action::AskReady(SessionHalf::Outbound) => match reply {
                    Reply::Is(true) => self.to_action(Action::AskReady(SessionHalf::Inbound)),
                    Reply::Is(false) => self.to_responses(),
                    _ => self,
                },
            Action::AskReady(SessionHalf::Inbound) => match reply {
                    Reply::Is(true) => self.to_action(Action::Retire(SessionHalf::Outbound)),
                    Reply::Is(false) => self.to_responses(),
                    _ => self,
                },
            Action::Retire(SessionHalf::Outbound) => match reply {
                    Reply::Done => self.to_action(Action::Retire(SessionHalf::Inbound)),
                    _ => self,
                },
            Action::Retire(SessionHalf::Inbound) => match reply {
                    Reply::Done => if self.has_destination {
                        self.to_action(Action::HandOff)
                    } else {
                        self.to_failure(SessionFailure::Destination)
                    },
                    _ => self,
                },
            Action::HandOff => match reply {
                    Reply::Done => self.to_early(),
                    _ => self,
                },
            Action::SubmitEarly => match reply {
                    Reply::Done => if self.early_frames > 0 {
                        Coordinator { early_frames: self.early_frames - 1, ..self }.to_early()
                    } else {
                        self.to_early()
                    },
                    _ => self,
                },
            Action::StampStart => match reply {
                    Reply::Now(now) => Coordinator {
                        is_starting: false,
                        started_at: Some(now),
                        ..self
                    }.to_responses(),
                    _ => self,
                },
            _ => self,
        }
    }

    fn to_answering(self, reply: Reply) -> (next: Coordinator)
        ensures
            next == self.in_answering(reply),
    {
        match self.action {
            Action::NextResponse => match reply {
                    Reply::Answer => self.to_action(Action::SendResponse),
                    Reply::Nothing => self.to_start(),
                    _ => self,
                },
            Action::SendResponse => match reply {
                    Reply::Done => if self.left > 1 {
                        Coordinator { action: Action::NextResponse, left: self.left - 1, ..self }
                    } else {
                        self.to_start()
                    },
                    _ => self,
                },
            Action::AskStarted => match reply {
                    Reply::Is(true) => self.to_action(Action::MarkStarted),
                    Reply::Is(false) => self.to_tick(),
                    _ => self,
                },
            Action::MarkStarted => match reply {
                    Reply::Done => self.to_tick(),
                    _ => self,
                },
            _ => self,
        }
    }

    fn to_ticking(self, reply: Reply) -> (next: Coordinator)
        ensures
            next == self.in_ticking(reply),
    {
        match self.action {
            Action::StampTick => match reply {
                    Reply::Now(now) => Coordinator { action: Action::CheckIo, gaps: observed_gap(self.gaps, now), ..self },
                    _ => self,
                },
            Action::CheckIo => match reply {
                    Reply::Done => self.to_housekeeping(),
                    _ => self,
                },
            Action::AskRevision => match reply {
                    Reply::Revision(completed) => self.to_revision(completed),
                    _ => self,
                },
            Action::TickSource => match reply {
                    Reply::Applied(outcome) => Coordinator {
                        submitted: outcome.submitted,
                        pending_since: outcome.pending_since,
                        ..self
                    }.to_route(),
                    _ => self,
                },
            Action::StampRoute => match reply {
                    Reply::Now(now) => self.to_due_route(now),
                    _ => self,
                },
            Action::ApplyRoute => match reply {
                    Reply::Routed(was_applied, submitted) => Coordinator {
                        submitted,
                        pending_since: if was_applied {
                            None
                        } else {
                            self.pending_since
                        },
                        ..self
                    }.to_pointer(),
                    _ => self,
                },
            _ => self,
        }
    }

    fn to_keeping(self, reply: Reply) -> (next: Coordinator)
        ensures
            next == self.in_keeping(reply),
    {
        match self.action {
            Action::AskPointer => match reply {
                    Reply::Source(source) => self.to_due_pointer(source),
                    _ => self,
                },
            Action::PollPointer => match reply {
                    Reply::Applied(outcome) => Coordinator {
                        submitted: outcome.submitted,
                        pending_since: outcome.pending_since,
                        ..self
                    }.to_renewal(),
                    Reply::Nothing => self.to_renewal(),
                    _ => self,
                },
            Action::AskRenewal => match reply {
                    Reply::Source(source) => self.to_due_renewal(source),
                    _ => self,
                },
            Action::Renew => match reply {
                    Reply::Renewed(Renewal::Ticket(ticket)) => Coordinator {
                        action: Action::ShowControl,
                        submitted: Some(ticket),
                        last_renewed: ticket.issued,
                        ..self
                    },
                    Reply::Renewed(Renewal::ControlPending) => self.to_action(Action::ShowControl),
                    _ => self,
                },
            Action::ShowControl => match reply {
                    Reply::Done => self.to_action(Action::Wait),
                    _ => self,
                },
            _ => self,
        }
    }

    fn to_reply(self, reply: Reply) -> (next: Coordinator)
        ensures
            next == self.in_reply(reply),
    {
        match self.action {
            Action::Wait
            | Action::Observe
            | Action::JoinCapture
            | Action::StartDestination => self.to_waking(reply),
            Action::CountReceived
            | Action::AskEarly
            | Action::KeepFrame
            | Action::Receive(_)
            | Action::SendAnswer(_)
            | Action::SourceFrame
            | Action::SubmitFrame => self.to_reading(reply),
            Action::Poll(_)
            | Action::SendPoll(_)
            | Action::AskHealth(_)
            | Action::ClaimNative
            | Action::StartCapture => self.to_starting(reply),
            Action::AskNativeReady
            | Action::AskAnnounce(_)
            | Action::Announce(_) => self.to_announcing(reply),
            Action::ReadyCapture
            | Action::NextEvent
            | Action::Bookkeep
            | Action::SourceEvent => self.to_capturing(reply),
            Action::AskReady(_)
            | Action::Retire(_)
            | Action::HandOff
            | Action::SubmitEarly
            | Action::StampStart => self.to_handing(reply),
            Action::NextResponse
            | Action::SendResponse
            | Action::AskStarted
            | Action::MarkStarted => self.to_answering(reply),
            Action::StampTick
            | Action::CheckIo
            | Action::AskRevision
            | Action::TickSource
            | Action::StampRoute
            | Action::ApplyRoute => self.to_ticking(reply),
            Action::AskPointer
            | Action::PollPointer
            | Action::AskRenewal
            | Action::Renew
            | Action::ShowControl => self.to_keeping(reply),
            Action::Stop(_) => self,
        }
    }

    /// Goes on with what came of the action.
    pub fn advance(&mut self, reply: Reply)
        ensures
            *final(self) == old(self).after(reply),
    {
        let next = match (self.action, reply) {
            (Action::Stop(_), _) => *self,
            (_, Reply::Failed(failure)) => self.to_failure(failure),
            _ => self.to_reply(reply),
        };
        *self = next;
    }
}

/// What a session's owner is shown of the control.
#[derive(Clone, Copy, Debug, PartialEq, Eq, Structural)]
pub struct ControlState {
    /// Which direction holds the floor.
    pub owner: Option<SessionHalf>,
    /// The display that the peer moves the pointer on.
    pub destination_display: Option<DisplayId>,
    /// The display that the local pointer is on, and whether it is a local one.
    pub target: Option<Route>,
    pub source_is_held: bool,
    pub destination_is_held: bool,
}

/// Shows the owner who holds the control, and where.
pub fn show_control(progress: &mut SessionProgress, control: ControlState)
    ensures
        *final(progress) == (SessionProgress {
            active: if control.owner == Some(SessionHalf::Inbound) {
                match control.destination_display {
                    Some(display) => Some(Route { display, local: true }),
                    None => None,
                }
            } else {
                control.target
            },
            half: control.owner,
            held: control.source_is_held || control.destination_is_held,
            ..*old(progress)
        }),
{
    let inbound = control.owner == Some(SessionHalf::Inbound);
    if inbound {
        progress.route(control.destination_display, true);
    } else {
        match control.target {
            Some(target) => progress.route(Some(target.display), target.local),
            None => progress.route(None, false),
        }
    }
    progress.active_half(control.owner);
    progress.hold(control.source_is_held || control.destination_is_held);
}

/// The silences of both directions: how many there were, and the longest in milliseconds.
pub fn total_holds(source_holds: u32, source_longest: Duration, receiver: &ReceiverStats) -> (holds: (
    u64,
    u64,
))
    requires
        source_holds + receiver.holds <= u64::MAX,
    ensures
        holds.0 == source_holds + receiver.holds,
        holds.1 == longer(
            clamp_u64(source_longest as nat / 1_000_000),
            receiver.held_max_millis as nat,
        ),
{
    let longest: u64 = millis_u64(source_longest);
    (
        source_holds as u64 + receiver.holds,
        if longest >= receiver.held_max_millis {
            longest
        } else {
            receiver.held_max_millis
        },
    )
}

/// What a capture worker is doing at the end.
#[derive(Clone, Copy, Debug, PartialEq, Eq, Structural)]
pub enum CaptureEnd {
    /// It was never there, or ended cleanly.
    Done,
    Running,
    /// It ended with an error, by its code.
    Failed(u8),
}

/// What each native worker is doing.
#[derive(Clone, Copy, Debug, PartialEq, Eq, Structural)]
pub struct CleanupPending {
    pub startup_running: bool,
    pub capture: CaptureEnd,
    pub injection_running: bool,
    pub injected_release_failed: bool,
}

/// What the wait for the native workers does next.
#[derive(Clone, Copy, Debug, PartialEq, Eq, Structural)]
pub enum FinishStep {
    Done,
    Wait,
    /// Time is up with this still pending.
    GiveUp,
}

impl CleanupPending {
    pub open spec fn is_clean(self) -> bool {
        &&& !self.startup_running
        &&& self.capture == CaptureEnd::Done
        &&& !self.injection_running
        &&& !self.injected_release_failed
    }

    /// What is left, where the injection actor is asked whether it ended and whether a release it
    /// owes failed.
    pub fn observe(
        startup_running: bool,
        capture: CaptureEnd,
        injection_running: bool,
        release_pending: bool,
    ) -> (pending: CleanupPending)
        ensures
            pending == (CleanupPending {
                startup_running,
                capture,
                injection_running,
                injected_release_failed: !injection_running && release_pending,
            }),
    {
        CleanupPending {
            startup_running,
            capture,
            injection_running,
            injected_release_failed: !injection_running && release_pending,
        }
    }

    pub fn finish(&self, now: Duration, deadline: Duration) -> (step: FinishStep)
        ensures
            step == (if self.is_clean() {
                FinishStep::Done
            } else if now >= deadline {
                FinishStep::GiveUp
            } else {
                FinishStep::Wait
            }),
    {
        if !self.startup_running && self.capture == CaptureEnd::Done && !self.injection_running
            && !self.injected_release_failed {
            FinishStep::Done
        } else if now >= deadline {
            FinishStep::GiveUp
        } else {
            FinishStep::Wait
        }
    }
}

/// How a session ends after its workers did, or did not in time.
pub fn final_result(result: Result<(), SessionFailure>, cleaned: bool) -> (last: Result<
    (),
    SessionFailure,
>)
    ensures
        last == (if cleaned {
            result
        } else {
            Err::<(), SessionFailure>(SessionFailure::NativeCleanup)
        }),
{
    if cleaned {
        result
    } else {
        Err(SessionFailure::NativeCleanup)
    }
}

impl Coordinator {
    /// What holds of a coordinator at every moment.
    pub open spec fn wf(self) -> bool {
        &&& self.early_frames <= SESSION_QUEUE_CAPACITY
        &&& self.has_destination ==> self.has_capture
        &&& self.capture_is_starting ==> !self.has_capture
        &&& !self.is_starting ==> self.has_capture && self.has_destination
        &&& self.is_starting <==> self.started_at is None
        &&& self.action is ClaimNative || self.action is StartCapture ==> !self.has_capture
            && !self.capture_is_starting
        &&& self.action is AskHealth ==> self.is_starting && !self.has_capture
            && !self.capture_is_starting
        &&& self.action is StartDestination ==> self.has_capture
        &&& self.action is CountReceived ==> self.wake != Wake::Frame(FrameKind::Goodbye)
            && self.wake != Wake::Frame(FrameKind::Stray)
        &&& self.needs_workers() ==> self.has_capture && self.has_destination
        &&& self.delivers() ==> !self.is_starting
        &&& self.hands_over() ==> self.is_starting && self.drained
        &&& self.action is HandOff || self.action is SubmitEarly || self.action is StampStart
            ==> self.has_capture && self.has_destination
        &&& self.action is NextEvent || self.action is Bookkeep || self.action is SourceEvent
            || self.action is ReadyCapture ==> self.has_capture
        &&& self.hands_over() ==> self.has_capture
        &&& self.action is StampStart ==> self.early_frames == 0
        &&& self.action is Renew ==> self.submitted is None && self.pending_since is None
    }

    /// The action announces that this side is ready.
    pub open spec fn needs_workers(self) -> bool {
        self.action is AskNativeReady || self.action is AskAnnounce || self.action is Announce
    }

    /// The action moves input between the computers, or changes where it goes.
    pub open spec fn delivers(self) -> bool {
        ||| self.action is SourceFrame
        ||| self.action is SubmitFrame
        ||| self.action is SourceEvent
        ||| self.action is AskStarted
        ||| self.action is MarkStarted
        ||| self.action is AskRevision
        ||| self.action is TickSource
        ||| self.action is StampRoute
        ||| self.action is ApplyRoute
        ||| self.action is AskPointer
        ||| self.action is PollPointer
        ||| self.action is AskRenewal
        ||| self.action is Renew
        ||| self.action is ShowControl
    }

    /// The action hands the directions over.
    pub open spec fn hands_over(self) -> bool {
        ||| self.action is AskReady
        ||| self.action is Retire
        ||| self.action is HandOff
        ||| self.action is SubmitEarly
        ||| self.action is StampStart
    }
}

proof fn lemma_order_waking(coordinator: Coordinator, reply: Reply)
    requires
        coordinator.wf(),
    ensures
        coordinator.in_waking(reply).wf(),
{
}

proof fn lemma_order_reading(coordinator: Coordinator, reply: Reply)
    requires
        coordinator.wf(),
    ensures
        coordinator.in_reading(reply).wf(),
{
}

proof fn lemma_order_starting(coordinator: Coordinator, reply: Reply)
    requires
        coordinator.wf(),
    ensures
        coordinator.in_starting(reply).wf(),
{
}

proof fn lemma_order_announcing(coordinator: Coordinator, reply: Reply)
    requires
        coordinator.wf(),
    ensures
        coordinator.in_announcing(reply).wf(),
{
}

proof fn lemma_order_capturing(coordinator: Coordinator, reply: Reply)
    requires
        coordinator.wf(),
    ensures
        coordinator.in_capturing(reply).wf(),
{
}

proof fn lemma_order_handing(coordinator: Coordinator, reply: Reply)
    requires
        coordinator.wf(),
    ensures
        coordinator.in_handing(reply).wf(),
{
}

proof fn lemma_order_answering(coordinator: Coordinator, reply: Reply)
    requires
        coordinator.wf(),
    ensures
        coordinator.in_answering(reply).wf(),
{
}

proof fn lemma_order_ticking(coordinator: Coordinator, reply: Reply)
    requires
        coordinator.wf(),
    ensures
        coordinator.in_ticking(reply).wf(),
{
}

proof fn lemma_order_keeping(coordinator: Coordinator, reply: Reply)
    requires
        coordinator.wf(),
    ensures
        coordinator.in_keeping(reply).wf(),
{
}

/// Whatever comes of an action, the coordinator keeps its order: no input moves before the handover,
/// nothing is announced before both native workers are there, at most one capture worker is started,
/// what came early stays bounded, and no suppression is renewed while a control change is out.
pub proof fn law_the_coordinator_keeps_its_order(coordinator: Coordinator, reply: Reply)
    requires
        coordinator.wf(),
    ensures
        coordinator.after(reply).wf(),
{
    lemma_order_waking(coordinator, reply);
    lemma_order_reading(coordinator, reply);
    lemma_order_starting(coordinator, reply);
    lemma_order_announcing(coordinator, reply);
    lemma_order_capturing(coordinator, reply);
    lemma_order_handing(coordinator, reply);
    lemma_order_answering(coordinator, reply);
    lemma_order_ticking(coordinator, reply);
    lemma_order_keeping(coordinator, reply);
}

/// The directions are handed over in one place only: after everything captured was accounted for and
/// the native workers took what came early. They never start again.
pub proof fn law_the_handover_happens_once(coordinator: Coordinator, reply: Reply)
    requires
        coordinator.wf(),
    ensures
        coordinator.is_starting && !coordinator.after(reply).is_starting ==> coordinator.action
            is StampStart && coordinator.drained && coordinator.has_destination
            && coordinator.early_frames == 0,
        !coordinator.is_starting ==> !coordinator.after(reply).is_starting,
        coordinator.started_at is Some ==> coordinator.after(reply).started_at
            == coordinator.started_at,
{
}

/// A session ends without a failure only when the peer says goodbye, and the end is final.
pub proof fn law_only_a_goodbye_ends_cleanly(coordinator: Coordinator, reply: Reply)
    ensures
        coordinator.action is Stop ==> coordinator.after(reply) == coordinator,
        !(coordinator.action is Stop) && coordinator.after(reply).action == Action::Stop(None)
            ==> coordinator.wake == Wake::Frame(FrameKind::Goodbye),
{
}

/// A failure of any action ends the session with that failure.
pub proof fn law_failures_end_the_session(coordinator: Coordinator, failure: SessionFailure)
    requires
        !(coordinator.action is Stop),
    ensures
        coordinator.after(Reply::Failed(failure)).action == Action::Stop(Some(failure)),
{
}

/// Native work begins only after each direction in turn proved healthy: the outbound one first, the
/// inbound one next.
#[verifier::rlimit(40)]
pub proof fn law_native_work_waits_for_both_directions(coordinator: Coordinator, reply: Reply)
    ensures
        !(coordinator.action is ClaimNative) && coordinator.after(reply).action is ClaimNative
            ==> coordinator.action == Action::AskHealth(SessionHalf::Inbound) && reply
            == Reply::Is(true),
        coordinator.action != Action::AskHealth(SessionHalf::Inbound) && coordinator.after(
            reply,
        ).action == Action::AskHealth(SessionHalf::Inbound) ==> coordinator.action
            == Action::AskHealth(SessionHalf::Outbound) && reply == Reply::Is(true),
{
}

/// The directions are handed over only after each of them in turn was ready: the outbound one first,
/// the inbound one next.
#[verifier::rlimit(40)]
pub proof fn law_the_handover_waits_for_both_directions(coordinator: Coordinator, reply: Reply)
    ensures
        !(coordinator.action is Retire) && coordinator.after(reply).action is Retire
            ==> coordinator.action == Action::AskReady(SessionHalf::Inbound) && reply == Reply::Is(
            true,
        ),
        coordinator.action != Action::AskReady(SessionHalf::Inbound) && coordinator.after(
            reply,
        ).action == Action::AskReady(SessionHalf::Inbound) ==> coordinator.action
            == Action::AskReady(SessionHalf::Outbound) && reply == Reply::Is(true),
{
}

/// Once a session has started, every frame that counts as received is delivered before anything else
/// happens: one of the outbound direction to the source, any other to the destination.
pub proof fn law_received_frames_are_delivered(coordinator: Coordinator, kind: FrameKind)
    requires
        coordinator.wf(),
        coordinator.action == Action::CountReceived,
        coordinator.wake == Wake::Frame(kind),
        !coordinator.is_starting,
    ensures
        kind == FrameKind::Outbound ==> coordinator.after(Reply::Done) == (Coordinator {
            action: Action::SourceFrame,
            ..coordinator
        }),
        kind == FrameKind::Inbound || kind == FrameKind::InboundControl ==> coordinator.after(
            Reply::Done,
        ) == (Coordinator { action: Action::SubmitFrame, ..coordinator }),
{
}

/// While a session starts, every frame that counts as received is read by the startup control of its
/// direction, but for input, of which the inbound direction is asked first.
pub proof fn law_frames_of_a_starting_session_are_read(coordinator: Coordinator, kind: FrameKind)
    requires
        coordinator.wf(),
        coordinator.is_starting,
        coordinator.action == Action::CountReceived,
        coordinator.wake == Wake::Frame(kind),
    ensures
        kind == FrameKind::Outbound ==> coordinator.after(Reply::Done).action == Action::Receive(
            SessionHalf::Outbound,
        ),
        kind == FrameKind::InboundControl ==> coordinator.after(Reply::Done).action
            == Action::Receive(SessionHalf::Inbound),
        kind == FrameKind::Inbound ==> coordinator.after(Reply::Done).action == Action::AskEarly,
{
}

/// Input that comes when the inbound direction is ready is kept, up to a queue's length, and one
/// more ends the session; input that comes before is read by the startup control.
pub proof fn law_early_input_is_kept(coordinator: Coordinator)
    requires
        coordinator.wf(),
        coordinator.action == Action::AskEarly,
    ensures
        coordinator.after(Reply::Is(false)).action == Action::Receive(SessionHalf::Inbound),
        coordinator.early_frames < SESSION_QUEUE_CAPACITY ==> coordinator.after(
            Reply::Is(true),
        ).action == Action::KeepFrame && coordinator.after(Reply::Is(true)).early_frames
            == coordinator.early_frames + 1,
        coordinator.early_frames == SESSION_QUEUE_CAPACITY ==> coordinator.after(
            Reply::Is(true),
        ).action == Action::Stop(Some(SessionFailure::QueueFull)),
{
}

/// What the startup control of a direction answers to a frame is sent in that direction, and a
/// startup round follows.
pub proof fn law_a_startup_answer_is_sent(coordinator: Coordinator, half: SessionHalf)
    requires
        coordinator.is_starting,
    ensures
        coordinator.action == Action::Receive(half) ==> coordinator.after(Reply::Answer).action
            == Action::SendAnswer(half) && coordinator.after(Reply::Nothing).action == Action::Poll(
            SessionHalf::Outbound,
        ),
        coordinator.action == Action::SendAnswer(half) ==> coordinator.after(Reply::Done).action
            == Action::Poll(SessionHalf::Outbound),
{
}

/// Whatever wakes the coordinator while its workers go on: a goodbye ends the session, a frame of no
/// direction fails it, any other frame counts as received, and a tick or a captured event goes on
/// with the startup, or in a started session with what was captured.
pub proof fn law_every_wake_is_served(coordinator: Coordinator, report: WorkerReport)
    requires
        coordinator.wf(),
        coordinator.action == Action::Observe,
        !report.stopping,
        report.capture_stop is None,
        !report.capture_finished,
        report.destination is None,
        !(coordinator.capture_is_starting && report.startup_finished),
    ensures
        ({
            let next = coordinator.after(Reply::Workers(report));
            match coordinator.wake {
                Wake::Frame(FrameKind::Goodbye) => next.action == Action::Stop(None),
                Wake::Frame(FrameKind::Stray) => next.action == Action::Stop(
                    Some(SessionFailure::Wire),
                ),
                Wake::Frame(_) => next.action == Action::CountReceived,
                _ => next.action == (if coordinator.is_starting {
                    Action::Poll(SessionHalf::Outbound)
                } else {
                    Action::ReadyCapture
                }),
            }
        }),
{
}

/// A worker that ended or was told to stop ends the session before the wake is served, and a capture
/// worker that finished starting is joined before it.
pub proof fn law_workers_are_observed_first(coordinator: Coordinator, report: WorkerReport)
    requires
        coordinator.action == Action::Observe,
    ensures
        ({
            let next = coordinator.after(Reply::Workers(report));
            &&& report.stopping && (report.deliberate || report.capture_stop is None
                && report.destination is None) ==> next.action == Action::Stop(
                Some(SessionFailure::Revoked),
            )
            &&& report.stopping || report.capture_stop is Some || report.capture_finished
                || report.destination is Some ==> next.action is Stop && next.action
                != Action::Stop(None)
            &&& !report.stopping && report.capture_stop is None && !report.capture_finished
                && report.destination is None && coordinator.capture_is_starting
                && report.startup_finished ==> next.action == Action::JoinCapture
        }),
{
}

/// The wake and its moment are taken as they came.
pub proof fn law_a_wake_is_noted(coordinator: Coordinator, wake: Wake, now: Duration)
    requires
        coordinator.action == Action::Wait,
    ensures
        coordinator.after(Reply::Woke(wake, now)) == (Coordinator {
            action: Action::Observe,
            wake,
            now,
            ..coordinator
        }),
{
}

/// After so many steps that were just done.
pub open spec fn after_done(coordinator: Coordinator, steps: nat) -> Coordinator
    decreases steps,
{
    if steps == 0 {
        coordinator
    } else {
        after_done(coordinator, (steps - 1) as nat).after(Reply::Done)
    }
}

/// Every frame that was kept is given to the destination, one by one, between the handover and the
/// moment the session counts as started; none is left and none is given twice.
pub proof fn law_every_early_frame_is_submitted(coordinator: Coordinator, step: nat)
    requires
        coordinator.action == Action::HandOff,
        step <= coordinator.early_frames,
    ensures
        ({
            let next = after_done(coordinator, step + 1);
            &&& next.early_frames == coordinator.early_frames - step
            &&& next.action == (if step < coordinator.early_frames {
                Action::SubmitEarly
            } else {
                Action::StampStart
            })
            &&& next.has_destination == coordinator.has_destination
        }),
    decreases step,
{
    reveal_with_fuel(after_done, 2);
    if step > 0 {
        law_every_early_frame_is_submitted(coordinator, (step - 1) as nat);
    }
}

/// A session is handed over once both directions say that they are ready, the outbound one asked
/// first; both are then retired before the destination takes over.
pub proof fn law_a_ready_session_is_handed_over(coordinator: Coordinator, half: SessionHalf)
    requires
        coordinator.wf(),
        coordinator.has_destination,
    ensures
        coordinator.action == Action::AskReady(half) ==> coordinator.after(Reply::Is(true)).action
            == (if half == SessionHalf::Outbound {
            Action::AskReady(SessionHalf::Inbound)
        } else {
            Action::Retire(SessionHalf::Outbound)
        }) && coordinator.after(Reply::Is(false)).action == Action::NextResponse,
        coordinator.action == Action::Retire(half) ==> coordinator.after(Reply::Done).action == (
        if half == SessionHalf::Outbound {
            Action::Retire(SessionHalf::Inbound)
        } else {
            Action::HandOff
        }),
{
}

/// The moment a session started is the moment that was stamped, and from then on it has started.
pub proof fn law_the_start_is_stamped(coordinator: Coordinator, now: Duration)
    requires
        coordinator.wf(),
        coordinator.action == Action::StampStart,
    ensures
        !coordinator.after(Reply::Now(now)).is_starting,
        coordinator.after(Reply::Now(now)).started_at == Some(now),
        coordinator.after(Reply::Now(now)).action == Action::NextResponse,
{
}

/// Captured events reach the source of a started session one by one, and only the books of one that
/// starts; no event is passed over while the iteration may take more. One that finds none left, or
/// has taken its share, goes on: to the handover where one that starts has drained everything, to
/// the destination's answers otherwise.
pub proof fn law_captured_events_reach_the_source(coordinator: Coordinator, outcome: Outcome)
    requires
        coordinator.wf(),
        coordinator.has_capture,
        coordinator.has_destination,
    ensures
        ({
            let ready = Coordinator { action: Action::ReadyCapture, ..coordinator };
            let asking = Coordinator { action: Action::NextEvent, ..coordinator };
            let sourcing = Coordinator { action: Action::SourceEvent, ..coordinator };
            let booking = Coordinator { action: Action::Bookkeep, ..coordinator };
            let sourced = sourcing.after(Reply::Applied(outcome));
            let done = asking.after(Reply::Nothing);
            let more = if coordinator.left > 1 {
                Action::NextEvent
            } else if coordinator.is_starting && coordinator.drained {
                Action::AskReady(SessionHalf::Outbound)
            } else {
                Action::NextResponse
            };
            &&& ready.after(Reply::Done).action == Action::NextEvent
            &&& asking.after(Reply::Event).action == (if coordinator.is_starting {
                Action::Bookkeep
            } else {
                Action::SourceEvent
            })
            &&& sourced.action == more
            &&& sourced.submitted == outcome.submitted
            &&& sourced.pending_since == outcome.pending_since
            &&& booking.after(Reply::Done).action == more
            &&& asking.after(Reply::Skipped).action == more
            &&& coordinator.left > 1 ==> sourced.left == coordinator.left - 1 && booking.after(
                Reply::Done,
            ).left == coordinator.left - 1
            &&& done.drained
            &&& done.action == (if coordinator.is_starting {
                Action::AskReady(SessionHalf::Outbound)
            } else {
                Action::NextResponse
            })
        }),
{
}

/// Every frame and every startup round is followed by a look at what was captured, with the whole
/// share of an iteration, as soon as there is a capture worker.
pub proof fn law_every_iteration_drains_the_capture(
    coordinator: Coordinator,
    outcome: Outcome,
)
    requires
        coordinator.wf(),
        coordinator.has_capture,
    ensures
        ({
            let source = Coordinator { action: Action::SourceFrame, ..coordinator };
            let sourced = source.after(Reply::Applied(outcome));
            let submit = Coordinator { action: Action::SubmitFrame, ..coordinator };
            let native = Coordinator { action: Action::AskNativeReady, ..coordinator };
            let announced = Coordinator {
                action: Action::Announce(SessionHalf::Outbound),
                ..coordinator
            };
            &&& !coordinator.is_starting ==> drains(sourced) && sourced.submitted
                == outcome.submitted && sourced.pending_since == outcome.pending_since
            &&& !coordinator.is_starting ==> drains(submit.after(Reply::Done))
            &&& drains(native.after(Reply::Is(false)))
            &&& drains(announced.after(Reply::Done))
        }),
{
}

/// Begins to take what was captured.
pub open spec fn drains(coordinator: Coordinator) -> bool {
    &&& coordinator.action == Action::ReadyCapture
    &&& coordinator.left == DRAIN_LIMIT
    &&& !coordinator.drained
}

/// What the destination has for the peer is sent on, one answer after the other up to a queue's
/// length; a started session is marked as such once its destination is, and a tick ends with
/// housekeeping.
pub proof fn law_answers_are_sent_on(coordinator: Coordinator)
    requires
        coordinator.wf(),
    ensures
        ({
            let asking = Coordinator { action: Action::NextResponse, ..coordinator };
            let sending = Coordinator { action: Action::SendResponse, ..coordinator };
            let starting = Coordinator { action: Action::AskStarted, ..coordinator };
            let marking = Coordinator { action: Action::MarkStarted, ..coordinator };
            let last = if coordinator.wake == Wake::Tick {
                Action::StampTick
            } else {
                Action::Wait
            };
            let end = if coordinator.is_starting {
                last
            } else {
                Action::AskStarted
            };
            &&& asking.after(Reply::Answer) == (Coordinator {
                action: Action::SendResponse,
                ..coordinator
            })
            &&& asking.after(Reply::Nothing).action == end
            &&& coordinator.left > 1 ==> sending.after(Reply::Done) == (Coordinator {
                action: Action::NextResponse,
                left: (coordinator.left - 1) as usize,
                ..coordinator
            })
            &&& coordinator.left <= 1 ==> sending.after(Reply::Done).action == end
            &&& starting.after(Reply::Is(true)) == (Coordinator {
                action: Action::MarkStarted,
                ..coordinator
            })
            &&& starting.after(Reply::Is(false)).action == last
            &&& marking.after(Reply::Done).action == last
        }),
{
}

/// A tick notes how long the last one is ago, and then checks the connection.
pub proof fn law_a_tick_is_stamped(coordinator: Coordinator, now: Duration)
    requires
        coordinator.action == Action::StampTick,
    ensures
        ({
            let next = coordinator.after(Reply::Now(now));
            &&& next.action == Action::CheckIo
            &&& next.gaps.last == now
            &&& next.gaps.max >= coordinator.gaps.max
            &&& next.gaps.max >= now - coordinator.gaps.last
            &&& next.gaps.max == coordinator.gaps.max || next.gaps.max == now
                - coordinator.gaps.last
        }),
{
}

/// A tick of a session that starts only checks the connection; one of a started session then waits
/// for a control change that is out, and lets the source tick.
pub proof fn law_a_tick_goes_on_once_started(coordinator: Coordinator)
    requires
        coordinator.wf(),
        coordinator.action == Action::CheckIo,
    ensures
        coordinator.after(Reply::Done).action == (if coordinator.is_starting {
            Action::Wait
        } else if coordinator.submitted is Some {
            Action::AskRevision
        } else {
            Action::TickSource
        }),
{
}

/// What the source says of its tick is kept, and a route that waits is tried again before the
/// pointer is polled.
pub proof fn law_a_source_tick_is_kept(coordinator: Coordinator, outcome: Outcome)
    requires
        coordinator.action == Action::TickSource,
    ensures
        ({
            let next = coordinator.after(Reply::Applied(outcome));
            &&& next.action == (if outcome.pending_since is Some {
                Action::StampRoute
            } else {
                Action::AskPointer
            })
            &&& next.submitted == outcome.submitted
            &&& next.pending_since == outcome.pending_since
        }),
{
}

/// What the source says of a poll of the pointer is kept, and the renewal of the suppression comes
/// next.
pub proof fn law_a_pointer_poll_is_kept(coordinator: Coordinator, outcome: Outcome)
    requires
        coordinator.action == Action::PollPointer,
    ensures
        ({
            let next = coordinator.after(Reply::Applied(outcome));
            &&& next.action == Action::AskRenewal
            &&& next.submitted == outcome.submitted
            &&& next.pending_since == outcome.pending_since
            &&& coordinator.after(Reply::Nothing).action == Action::AskRenewal
        }),
{
}

/// A renewal that was sent is out from then on, one that could not be sent leaves everything as it
/// was, and in both cases the control is shown and the tick is over.
pub proof fn law_a_renewal_is_kept(coordinator: Coordinator, renewal: Renewal)
    ensures
        coordinator.action == Action::Renew ==> ({
            let next = coordinator.after(Reply::Renewed(renewal));
            &&& next.action == Action::ShowControl
            &&& match renewal {
                Renewal::Ticket(ticket) => next.submitted == Some(ticket) && next.last_renewed
                    == ticket.issued,
                Renewal::ControlPending => next.submitted == coordinator.submitted
                    && next.last_renewed == coordinator.last_renewed,
            }
        }),
        coordinator.action == Action::ShowControl ==> coordinator.after(Reply::Done) == (
        Coordinator { action: Action::Wait, ..coordinator }),
{
}

/// A control change that the capture worker confirmed is no longer out; one that it has not is
/// waited for, but no longer than the limit.
pub proof fn law_a_control_change_is_confirmed_in_time(
    coordinator: Coordinator,
    ticket: Ticket,
    revision: u64,
)
    requires
        coordinator.action == Action::AskRevision,
        coordinator.submitted == Some(ticket),
        ticket.issued <= coordinator.now,
    ensures
        ({
            let next = coordinator.after(Reply::Revision(Some(revision)));
            &&& ticket.revision <= revision ==> next.submitted is None && next.action
                == Action::TickSource
            &&& revision < ticket.revision && coordinator.now - ticket.issued < coordinator.limit
                ==> next.submitted == Some(ticket) && next.action == Action::TickSource
            &&& revision < ticket.revision && coordinator.now - ticket.issued >= coordinator.limit
                ==> next.action == Action::Stop(Some(SessionFailure::Native))
            &&& coordinator.after(Reply::Revision(None)).action == Action::Stop(
                Some(SessionFailure::Native),
            )
        }),
{
}

/// A route that waits is tried again until it is applied, and no longer than the limit.
pub proof fn law_a_waiting_route_is_applied_in_time(
    coordinator: Coordinator,
    since: Duration,
    now: Duration,
    submitted: Option<Ticket>,
    was_applied: bool,
)
    requires
        coordinator.action == Action::StampRoute,
        coordinator.pending_since == Some(since),
        since <= now,
    ensures
        ({
            let next = coordinator.after(Reply::Now(now));
            let applied = next.after(Reply::Routed(was_applied, submitted));
            &&& now - since >= coordinator.limit ==> next.action == Action::Stop(
                Some(SessionFailure::Native),
            )
            &&& now - since < coordinator.limit ==> next.action == Action::ApplyRoute
                && applied.action == Action::AskPointer && applied.submitted == submitted
                && applied.pending_since == (if was_applied {
                None
            } else {
                Some(since)
            })
        }),
{
}

/// The pointer is polled as often as it may be while the local user could take the floor: local,
/// nobody holding it, no input taken away, no route waiting, and an interval since the last poll.
pub proof fn law_when_the_pointer_is_polled(coordinator: Coordinator, source: SourceState)
    requires
        coordinator.action == Action::AskPointer,
        coordinator.last_pointer_poll <= coordinator.now,
    ensures
        ({
            let next = coordinator.after(Reply::Source(source));
            let due = coordinator.now - coordinator.last_pointer_poll >= POINTER_POLL_INTERVAL;
            &&& next.action == Action::PollPointer <==> due && source.is_local
                && source.floor_is_free && !source.capture_is_remote && coordinator.pending_since
                is None
            &&& next.action == Action::PollPointer ==> next.last_pointer_poll == coordinator.now
            &&& next.action != Action::PollPointer ==> next == (Coordinator {
                action: Action::AskRenewal,
                ..coordinator
            })
        }),
{
}

/// The suppression of local input is renewed as often as it must be while it is in force: input
/// taken away, the session not holding, no route waiting, no control change out, and an interval
/// since the last renewal.
pub proof fn law_when_the_suppression_is_renewed(coordinator: Coordinator, source: SourceState)
    requires
        coordinator.action == Action::AskRenewal,
        coordinator.last_renewed <= coordinator.now,
    ensures
        ({
            let next = coordinator.after(Reply::Source(source));
            let due = coordinator.now - coordinator.last_renewed >= DISPLAY_CHECK_INTERVAL;
            &&& next.action == Action::Renew <==> due && source.capture_is_remote && !source.is_held
                && coordinator.pending_since is None && coordinator.submitted is None
            &&& next.action != Action::Renew ==> next == (Coordinator {
                action: Action::ShowControl,
                ..coordinator
            })
        }),
{
}

/// Each round of a startup polls both directions and sends what they have. Without a capture worker
/// it then asks for their health; with both workers it goes on to their announcements.
pub proof fn law_a_startup_round_polls_both_directions(
    coordinator: Coordinator,
    half: SessionHalf,
    reply: Reply,
)
    requires
        coordinator.wf(),
        coordinator.is_starting,
        coordinator.action == Action::Poll(half) && (reply == Reply::Answer || reply
            == Reply::Nothing) || coordinator.action == Action::SendPoll(half) && reply
            == Reply::Done,
    ensures
        coordinator.after(reply).action == (if reply == Reply::Answer {
            Action::SendPoll(half)
        } else if half == SessionHalf::Outbound {
            Action::Poll(SessionHalf::Inbound)
        } else if !coordinator.has_capture && !coordinator.capture_is_starting {
            Action::AskHealth(SessionHalf::Outbound)
        } else if coordinator.has_capture && coordinator.has_destination {
            Action::AskNativeReady
        } else if coordinator.has_capture {
            Action::ReadyCapture
        } else if coordinator.wake == Wake::Tick {
            Action::StampTick
        } else {
            Action::Wait
        }),
{
}

/// Once both directions are healthy the native workers are claimed and the capture is started; where
/// they cannot be had the session ends and says so.
pub proof fn law_a_healthy_startup_claims_the_workers(coordinator: Coordinator)
    ensures
        coordinator.action == Action::AskHealth(SessionHalf::Outbound) ==> coordinator.after(
            Reply::Is(true),
        ).action == Action::AskHealth(SessionHalf::Inbound),
        coordinator.action == Action::AskHealth(SessionHalf::Inbound) ==> coordinator.after(
            Reply::Is(true),
        ).action == Action::ClaimNative,
        coordinator.action == Action::ClaimNative ==> coordinator.after(Reply::Is(true)).action
            == Action::StartCapture && coordinator.after(Reply::Is(true)).has_permit
            && coordinator.after(Reply::Is(false)).action == Action::Stop(
            Some(SessionFailure::Startup(SessionStartupFailure::NativeOwnershipUnavailable)),
        ),
        coordinator.action == Action::StartCapture ==> coordinator.after(
            Reply::Done,
        ).capture_is_starting,
{
}

/// With both workers ready the inbound direction is announced where it may be, and then the outbound
/// one.
pub proof fn law_a_ready_startup_announces_both_directions(
    coordinator: Coordinator,
    half: SessionHalf,
)
    ensures
        coordinator.action == Action::AskNativeReady ==> coordinator.after(Reply::Is(true)).action
            == Action::AskAnnounce(SessionHalf::Inbound),
        coordinator.action == Action::AskAnnounce(half) ==> coordinator.after(
            Reply::Is(true),
        ).action == Action::Announce(half),
        coordinator.action == Action::AskAnnounce(SessionHalf::Inbound) ==> coordinator.after(
            Reply::Is(false),
        ).action == Action::AskAnnounce(SessionHalf::Outbound),
        coordinator.action == Action::Announce(SessionHalf::Inbound) ==> coordinator.after(
            Reply::Done,
        ).action == Action::AskAnnounce(SessionHalf::Outbound),
{
}

/// A capture worker that is there starts the destination with the permit that was claimed, and the
/// frame that woke the coordinator is then served. One that is lost ends the session.
pub proof fn law_a_joined_capture_starts_the_destination(coordinator: Coordinator)
    requires
        coordinator.wf(),
        coordinator.action == Action::JoinCapture,
        coordinator.is_starting,
    ensures
        ({
            let joined = coordinator.after(Reply::Done);
            let started = joined.after(Reply::Done);
            &&& coordinator.has_permit ==> joined.action == Action::StartDestination
                && joined.has_capture && !joined.capture_is_starting && !joined.has_permit
            &&& !coordinator.has_permit ==> joined.action == Action::Stop(
                Some(SessionFailure::Destination),
            )
            &&& coordinator.has_permit ==> started.has_destination && match coordinator.wake {
                Wake::Frame(FrameKind::Goodbye) => started.action == Action::Stop(None),
                Wake::Frame(FrameKind::Stray) => started.action == Action::Stop(
                    Some(SessionFailure::Wire),
                ),
                Wake::Frame(_) => started.action == Action::CountReceived,
                _ => started.action == Action::Poll(SessionHalf::Outbound),
            }
            &&& coordinator.after(Reply::Lost).action == Action::Stop(
                Some(SessionFailure::Startup(SessionStartupFailure::CaptureWorkerUnavailable)),
            )
        }),
{
}

/// A frame belongs to no direction, to the one this side controls by, or to the one it is controlled
/// by; of the last, what only a startup reads is told apart from input.
pub proof fn law_frames_are_told_apart_by_their_scope(frame: Frame, scopes: SessionScopes)
    requires
        scopes.outbound != FrameScope::Connection,
    ensures
        ({
            let kind = kind_of_frame(frame, scopes.outbound);
            &&& frame.scope == FrameScope::Connection <==> kind == FrameKind::Goodbye || kind
                == FrameKind::Stray
            &&& kind == FrameKind::Goodbye <==> frame.scope == FrameScope::Connection
                && frame.message is Disconnect
            &&& kind == FrameKind::Outbound <==> frame.scope == scopes.outbound
            &&& kind == FrameKind::InboundControl ==> frame.message is Ping || frame.message is Pong
                || frame.message is SessionReady
            &&& kind == FrameKind::Inbound ==> !(frame.message is Ping) && !(frame.message is Pong)
                && !(frame.message is SessionReady)
        }),
{
}

/// The workers, and what is known of them, change only where they are claimed, started and joined.
pub proof fn law_the_workers_change_only_where_they_start(coordinator: Coordinator, reply: Reply)
    requires
        coordinator.action != Action::JoinCapture,
        coordinator.action != Action::StartDestination,
        coordinator.action != Action::ClaimNative,
        coordinator.action != Action::StartCapture,
    ensures
        coordinator.after(reply).has_capture == coordinator.has_capture,
        coordinator.after(reply).has_destination == coordinator.has_destination,
        coordinator.after(reply).has_permit == coordinator.has_permit,
        coordinator.after(reply).capture_is_starting == coordinator.capture_is_starting,
{
}

/// Two coordinators know the same of the session: its workers, its control, its moments and what woke
/// it.
pub open spec fn knows_the_same(one: Coordinator, other: Coordinator) -> bool {
    one == (Coordinator {
        action: one.action,
        left: one.left,
        drained: one.drained,
        ..other
    })
}

/// On the way to the next action nothing of what is known is lost, whichever part of an iteration it
/// is found in.
pub proof fn law_the_way_on_loses_nothing(coordinator: Coordinator)
    requires
        !(coordinator.action is JoinCapture),
    ensures
        knows_the_same(coordinator.in_housekeeping(), coordinator),
        knows_the_same(coordinator.in_start(), coordinator),
        knows_the_same(coordinator.in_responses(), coordinator),
        knows_the_same(coordinator.in_early(), coordinator),
        knows_the_same(coordinator.in_handover(), coordinator),
        knows_the_same(coordinator.in_next_event(), coordinator),
        knows_the_same(coordinator.in_startup(), coordinator),
        knows_the_same(coordinator.in_announcement(), coordinator),
        knows_the_same(coordinator.in_health(), coordinator),
        knows_the_same(coordinator.in_frame(), coordinator),
        knows_the_same(coordinator.in_delivery(), coordinator),
        knows_the_same(coordinator.in_route(), coordinator),
        knows_the_same(coordinator.in_ticket(), coordinator),
{
}

/// The destination's answers get a queue's length of an iteration, and what was captured its whole
/// share; without a worker its part of the iteration is passed over.
pub proof fn law_every_part_gets_its_share(coordinator: Coordinator)
    ensures
        coordinator.has_destination ==> coordinator.in_responses().action == Action::NextResponse
            && coordinator.in_responses().left == SESSION_QUEUE_CAPACITY,
        !coordinator.has_destination ==> coordinator.in_responses().action == (
        if coordinator.wake == Wake::Tick {
            Action::StampTick
        } else {
            Action::Wait
        }),
        coordinator.has_capture ==> drains(coordinator.in_drain()),
        !coordinator.has_capture ==> coordinator.in_drain() == (Coordinator {
            drained: false,
            ..coordinator
        }).in_responses(),
        coordinator.in_handover().action == Action::AskReady(SessionHalf::Outbound)
            <==> coordinator.is_starting && coordinator.drained,
        !(coordinator.is_starting && coordinator.drained) ==> coordinator.in_handover()
            == coordinator.in_responses(),
{
}

/// Where a direction is not healthy yet, or a worker has only begun to start, the round goes on
/// without it.
pub proof fn law_a_round_goes_on_without_what_is_not_ready(
    coordinator: Coordinator,
    half: SessionHalf,
)
    requires
        !coordinator.has_capture,
    ensures
        coordinator.action == Action::AskHealth(half) ==> coordinator.in_starting(Reply::Is(false))
            == coordinator.in_drain(),
        coordinator.action == Action::StartCapture ==> coordinator.in_starting(Reply::Done) == (
        Coordinator { capture_is_starting: true, ..coordinator }).in_drain(),
        coordinator.is_starting && coordinator.action == Action::KeepFrame
            ==> coordinator.in_reading(Reply::Done) == (Coordinator {
            action: Action::Poll(SessionHalf::Outbound),
            ..coordinator
        }),
{
}

/// Reading a frame changes what is known of the control only where the source took it, and counts it
/// only where it is kept.
pub proof fn law_reading_changes_little(coordinator: Coordinator, reply: Reply)
    ensures
        ({
            let next = coordinator.in_reading(reply);
            &&& coordinator.action != Action::SourceFrame && coordinator.action != Action::AskEarly
                && !(coordinator.action is JoinCapture) ==> knows_the_same(next, coordinator)
            &&& coordinator.action == Action::SourceFrame ==> knows_the_same(
                next,
                Coordinator {
                    submitted: next.submitted,
                    pending_since: next.pending_since,
                    ..coordinator
                },
            )
            &&& coordinator.action == Action::AskEarly ==> knows_the_same(
                next,
                Coordinator { early_frames: next.early_frames, ..coordinator },
            )
        }),
{
}

/// Starting and announcing change nothing but the permit and that the capture starts.
pub proof fn law_starting_changes_little(coordinator: Coordinator, reply: Reply)
    requires
        !(coordinator.action is JoinCapture),
    ensures
        ({
            let next = coordinator.in_starting(reply);
            knows_the_same(
                next,
                Coordinator {
                    has_permit: next.has_permit,
                    capture_is_starting: next.capture_is_starting,
                    ..coordinator
                },
            )
        }),
        knows_the_same(coordinator.in_announcing(reply), coordinator),
{
}

/// Taking what was captured changes what is known of the control only where the source took an
/// event, and answering changes nothing.
pub proof fn law_capturing_and_answering_change_little(coordinator: Coordinator, reply: Reply)
    ensures
        ({
            let next = coordinator.in_capturing(reply);
            &&& coordinator.action != Action::SourceEvent ==> knows_the_same(next, coordinator)
            &&& coordinator.action == Action::SourceEvent ==> knows_the_same(
                next,
                Coordinator {
                    submitted: next.submitted,
                    pending_since: next.pending_since,
                    ..coordinator
                },
            )
        }),
        knows_the_same(coordinator.in_answering(reply), coordinator),
{
}

/// The handover changes nothing but the frames that were kept, and in the end that the session has
/// started.
pub proof fn law_the_handover_changes_little(coordinator: Coordinator, reply: Reply)
    ensures
        ({
            let next = coordinator.in_handing(reply);
            &&& coordinator.action != Action::SubmitEarly && coordinator.action
                != Action::StampStart ==> knows_the_same(next, coordinator)
            &&& coordinator.action == Action::SubmitEarly ==> knows_the_same(
                next,
                Coordinator { early_frames: next.early_frames, ..coordinator },
            )
            &&& coordinator.action == Action::StampStart ==> knows_the_same(
                next,
                Coordinator {
                    is_starting: next.is_starting,
                    started_at: next.started_at,
                    ..coordinator
                },
            )
        }),
{
}

/// A tick changes nothing but what is known of the control and the moments that it notes.
pub proof fn law_a_tick_changes_little(coordinator: Coordinator, reply: Reply)
    ensures
        ({
            let next = coordinator.in_ticking(reply);
            let kept = coordinator.in_keeping(reply);
            &&& knows_the_same(
                next,
                Coordinator {
                    submitted: next.submitted,
                    pending_since: next.pending_since,
                    gaps: next.gaps,
                    ..coordinator
                },
            )
            &&& coordinator.action == Action::StampRoute || coordinator.action == Action::CheckIo
                ==> knows_the_same(next, coordinator)
            &&& knows_the_same(
                kept,
                Coordinator {
                    submitted: kept.submitted,
                    pending_since: kept.pending_since,
                    last_renewed: kept.last_renewed,
                    last_pointer_poll: kept.last_pointer_poll,
                    ..coordinator
                },
            )
        }),
{
}

/// A session begins on the first display of this computer that is in use and primary, or where none
/// is, on the first that is in use; where none is in use it cannot begin.
pub proof fn law_where_a_session_begins(
    displays: Seq<LayoutDisplay>,
    local: DeviceId,
    primary: int,
    usable: int,
)
    requires
        is_first_start(displays, local, true, primary),
        is_first_start(displays, local, false, usable),
    ensures
        start_display(displays, local) == (if primary < displays.len() {
            Some(displays[primary].id)
        } else if usable < displays.len() {
            Some(displays[usable].id)
        } else {
            None
        }),
{
    lemma_first_start(displays, local, true, primary);
    lemma_first_start(displays, local, false, usable);
}

/// The first display of this computer in use, and primary where that is asked for, is at `place`, or
/// there is none and `place` is the end.
pub open spec fn is_first_start(
    displays: Seq<LayoutDisplay>,
    local: DeviceId,
    as_primary: bool,
    place: int,
) -> bool {
    &&& 0 <= place <= displays.len()
    &&& place < displays.len() ==> displays[place].machine.0@ == local.0@ && displays[place].in_use
        && (as_primary ==> displays[place].primary)
    &&& forall|i: int|
        0 <= i < place ==> !((#[trigger] displays[i]).machine.0@ == local.0@ && displays[i].in_use
            && (as_primary ==> displays[i].primary))
}

proof fn lemma_first_start(
    displays: Seq<LayoutDisplay>,
    local: DeviceId,
    as_primary: bool,
    place: int,
)
    requires
        is_first_start(displays, local, as_primary, place),
    ensures
        first_start(displays, local, as_primary) == (if place < displays.len() {
            Some(displays[place].id)
        } else {
            None
        }),
    decreases displays.len(),
{
    if place > 0 {
        let rest = displays.drop_first();
        assert(!displays[0].can_start(local, as_primary));
        assert forall|i: int| 0 <= i < place - 1 implies !((#[trigger] rest[i]).machine.0@
            == local.0@ && rest[i].in_use && (as_primary ==> rest[i].primary)) by {
            assert(rest[i] == displays[i + 1]);
        }
        if place < displays.len() {
            assert(rest[place - 1] == displays[place]);
        }
        lemma_first_start(rest, local, as_primary, place - 1);
    }
}

/// A display of the layout is found by its id, the first one where there are more.
pub proof fn law_the_placed_display_is_the_first(
    displays: Seq<LayoutDisplay>,
    id: DisplayId,
    place: int,
)
    requires
        0 <= place <= displays.len(),
        forall|i: int| 0 <= i < place ==> (#[trigger] displays[i]).id != id,
        place < displays.len() ==> displays[place].id == id,
    ensures
        placed_display(displays, id) == (if place < displays.len() {
            Some(displays[place])
        } else {
            None
        }),
    decreases displays.len(),
{
    if place > 0 {
        let rest = displays.drop_first();
        assert forall|i: int| 0 <= i < place - 1 implies (#[trigger] rest[i]).id != id by {
            assert(rest[i] == displays[i + 1]);
        }
        if place < displays.len() {
            assert(rest[place - 1] == displays[place]);
        }
        law_the_placed_display_is_the_first(rest, id, place - 1);
    }
}

/// In a translated layout every display of both computers stands once, with its own computer and its
/// size and scale; the own ones are where they were, and the peer's are all moved by the same.
pub proof fn law_a_translation_moves_the_peer_alone(
    layout: Seq<LayoutDisplay>,
    local: Seq<DisplayDescription>,
    local_device: DeviceId,
    peer: Seq<DisplayDescription>,
    peer_device: DeviceId,
    shift: Point,
    i: int,
)
    requires
        is_translation(layout, local, local_device, peer, peer_device, shift),
    ensures
        layout.len() == local.len() + peer.len(),
        peer.len() > 0,
        0 <= i < local.len() ==> placed_display(layout, local[i].id) is Some && ({
            let stands = placed_display(layout, local[i].id)->0;
            &&& stands.machine.0@ == local_device.0@
            &&& stands.logical_size == local[i].logical_size
            &&& stands.native_width == local[i].native_width
            &&& stands.native_height == local[i].native_height
            &&& stands.scale_factor == local[i].scale_factor
            &&& stands.shift.x == 0 && stands.shift.y == 0
        }),
        0 <= i < peer.len() ==> placed_display(layout, peer[i].id) is Some && ({
            let stands = placed_display(layout, peer[i].id)->0;
            &&& stands.machine.0@ == peer_device.0@
            &&& stands.logical_size == peer[i].logical_size
            &&& stands.native_width == peer[i].native_width
            &&& stands.native_height == peer[i].native_height
            &&& stands.scale_factor == peer[i].scale_factor
            &&& stands.shift == shift
        }),
{
}

/// A layout that keeps every display of both computers so, and no other, is a translation.
pub proof fn law_what_makes_a_translation(
    layout: Seq<LayoutDisplay>,
    local: Seq<DisplayDescription>,
    local_device: DeviceId,
    peer: Seq<DisplayDescription>,
    peer_device: DeviceId,
    shift: Point,
)
    requires
        layout.len() == local.len() + peer.len(),
        peer.len() > 0,
        forall|i: int|
            0 <= i < local.len() ==> keeps_its_shape(
                layout,
                #[trigger] local[i],
                local_device,
                Point { x: 0, y: 0 },
            ),
        forall|i: int|
            0 <= i < peer.len() ==> keeps_its_shape(
                layout,
                #[trigger] peer[i],
                peer_device,
                shift,
            ),
    ensures
        is_translation(layout, local, local_device, peer, peer_device, shift),
{
    assert forall|i: int| 0 <= i < local.len() implies (placed_display(
        layout,
        (#[trigger] local[i]).id,
    ) matches Some(actual) && actual.keeps(local[i], local_device) && actual.shift == no_shift()) by {
        assert(keeps_its_shape(layout, local[i], local_device, Point { x: 0, y: 0 }));
    }
    assert forall|i: int| 0 <= i < peer.len() implies (placed_display(
        layout,
        (#[trigger] peer[i]).id,
    ) matches Some(actual) && actual.keeps(peer[i], peer_device) && actual.shift == shift) by {
        assert(keeps_its_shape(layout, peer[i], peer_device, shift));
    }
}

/// The display stands in the layout with its computer, its size and its scale, moved by `shift`.
pub open spec fn keeps_its_shape(
    layout: Seq<LayoutDisplay>,
    display: DisplayDescription,
    device: DeviceId,
    shift: Point,
) -> bool {
    placed_display(layout, display.id) matches Some(stands) && {
        &&& stands.machine.0@ == device.0@
        &&& stands.logical_size == display.logical_size
        &&& stands.native_width == display.native_width
        &&& stands.native_height == display.native_height
        &&& stands.scale_factor == display.scale_factor
        &&& stands.shift == shift
    }
}

/// Nothing is left to clean up exactly where no worker runs, the capture ended well and everything
/// injected was released.
pub proof fn law_when_everything_is_clean(pending: CleanupPending)
    ensures
        pending.is_clean() <==> !(pending.startup_running || pending.injection_running
            || pending.injected_release_failed || pending.capture == CaptureEnd::Running
            || pending.capture is Failed),
{
}

} // verus!
