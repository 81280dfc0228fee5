//! Input admission and native completion precede acknowledgement to the paired source.

use crate::protocol::{
    find_display, finite, Coordinate, DeliveryClass, DisplayDescription, DisplayId, DisplayTopology,
    Frame, HidUsage, Message, ModifierState, Motion, MouseButton, Point, PointerGesture, Scroll,
    SessionEpoch, SystemGesture, MILLION_COORDINATE,
};
use crate::session_health::{
    hold_stats, longest_hold, HealthError, HealthView, PeerHealth, HEARTBEAT_INTERVAL, HOLD_LIMIT,
    PEER_LIVENESS,
};
use crate::time::{longer, longest, span, Duration, ZERO};
use vstd::prelude::*;

verus! {

#[derive(Clone, Copy, Debug, PartialEq, Eq, Structural)]
pub enum DestinationAction {
    MoveTo(Point),
    Key { usage: HidUsage, pressed: bool },
    Button { button: MouseButton, pressed: bool, click_count: u8 },
    Scroll { horizontal: Coordinate, vertical: Coordinate },
    Gesture(PointerGesture),
    System(SystemGesture),
    EndGestures,
    ReleaseAll,
}

impl DestinationAction {
    /// Gives injected input back and injects none.
    pub open spec fn releases(self) -> bool {
        self is EndGestures || self is ReleaseAll
    }

    pub fn is_release(self) -> (release: bool)
        ensures
            release == self.releases(),
    {
        match self {
            DestinationAction::EndGestures | DestinationAction::ReleaseAll => true,
            _ => false,
        }
    }
}

/// The actions a destination was asked for, each with whether it succeeded.
pub type ActionLog = Seq<(DestinationAction, bool)>;

/// Implementations own their injected pressed state and retry incomplete release operations.
pub trait InputDestination {
    /// Every action asked for so far and how it was answered.
    spec fn history(&self) -> ActionLog;

    fn apply(&mut self, action: DestinationAction) -> (result: Result<(), DestinationFailure>)
        ensures
            final(self).history() == old(self).history().push((action, result is Ok)),
    ;
}

#[derive(Clone, Copy, Debug, PartialEq, Eq, Structural)]
pub struct DestinationFailure;

#[derive(Clone, Copy, Debug, PartialEq, Eq, Structural)]
pub enum ReceiverFailure {
    Health(HealthError),
    InvalidEpoch,
    InvalidSequence,
    RateLimited,
    WrongDisplay,
    InvalidPoint,
    NotActive,
    InvalidPressedState,
    UnexpectedMessage,
    NativeDelivery,
    PeerStopped,
    InvalidGesture,
}

/// Which gates a frame must pass before it is received, in the order they are asked.
#[derive(Clone, Copy, Debug, PartialEq, Eq, Structural)]
pub enum FrameCheck {
    /// Nothing is asked: the frame cannot be received any more.
    Closed,
    /// Only the rate limiter.
    Rate,
    /// The rate limiter, then the heartbeat gate of the control epoch.
    Heartbeat,
    /// The rate limiter, then the input gate is moved to the frame's epoch and takes the frame.
    Activation,
    /// The rate limiter, then the input gate takes the frame.
    Sequence,
}

#[derive(Clone, Copy, Debug, PartialEq, Eq, Structural)]
pub enum SequenceVerdict {
    Accepted,
    StaleOrReplay,
    Refused,
}

/// What the gates named by a [`FrameCheck`] answered. What was not asked is not read.
#[derive(Clone, Copy, Debug, PartialEq, Eq, Structural)]
pub struct Admission {
    pub within_rate: bool,
    pub heartbeat_is_fresh: bool,
    pub epoch_opens: bool,
    pub sequence: SequenceVerdict,
    /// For a relative motion, the active point moved by the delta.
    pub landing: Point,
}

/// The control exchange as startup left it.
pub struct ReadyControl {
    pub epoch: SessionEpoch,
    pub next_incoming: u64,
    pub next_outgoing: u64,
    pub next_heartbeat_out: u64,
    pub last_heartbeat_in: Option<u64>,
    pub health: PeerHealth,
    pub now: Duration,
}

/// What an [`InputReceiver`] knows.
#[verifier::ext_equal]
pub struct ReceiverView {
    pub displays: Seq<DisplayDescription>,
    pub epoch: SessionEpoch,
    pub control_epoch: SessionEpoch,
    pub health: HealthView,
    pub active: Option<(DisplayId, Point)>,
    pub pending_move: Option<Point>,
    pub keys: Seq<bool>,
    pub buttons: Seq<bool>,
    pub failure: Option<ReceiverFailure>,
    pub cleanup_pending: bool,
    pub held_since: Option<nat>,
    pub holds: nat,
    pub held_max: nat,
}

/// Nothing pressed among `count` keys.
pub open spec fn all_up(count: nat) -> Seq<bool> {
    Seq::new(count, |i: int| false)
}

/// The bit mask of the pressed ones among the first `count` modifier keys.
pub open spec fn modifier_mask(keys: Seq<bool>, count: nat) -> nat
    decreases count,
{
    if count == 0 {
        0
    } else {
        modifier_mask(keys, (count - 1) as nat) + (if keys[0xe0 + count - 1] {
            vstd::arithmetic::power2::pow2((count - 1) as nat)
        } else {
            0
        })
    }
}

/// Whether `point` may be reached on the display `id`, and if not, why.
pub open spec fn point_check(
    displays: Seq<DisplayDescription>,
    id: DisplayId,
    point: Point,
) -> Result<(), ReceiverFailure> {
    match find_display(displays, id) {
        None => Err(ReceiverFailure::WrongDisplay),
        Some(display) => if display.holds_point(point) {
            Ok(())
        } else {
            Err(ReceiverFailure::InvalidPoint)
        },
    }
}

/// Both directions finite and no further than a million.
pub open spec fn scroll_in_bounds(scroll: Scroll) -> bool {
    &&& -MILLION_COORDINATE <= scroll.horizontal <= MILLION_COORDINATE
    &&& -MILLION_COORDINATE <= scroll.vertical <= MILLION_COORDINATE
}

impl ReceiverView {
    pub open spec fn wf(self) -> bool {
        &&& self.health.wf()
        &&& self.keys.len() == 256
        &&& self.buttons.len() == 5
        &&& self.holds <= u32::MAX
        &&& (self.held_since matches Some(since) ==> since <= self.health.last_now)
    }

    /// Everything injected was given back.
    pub open spec fn released(self) -> ReceiverView {
        ReceiverView {
            keys: all_up(256),
            buttons: all_up(5),
            cleanup_pending: false,
            ..self
        }
    }

    /// The key report agrees with what is down: a press of a key that is up, a repeat of one that
    /// is down, or a release of one that is down.
    pub open spec fn key_agrees(self, usage: HidUsage, is_down: bool, repeat: bool) -> bool {
        let down = self.keys[usage.0 as int];
        if is_down {
            repeat == down
        } else {
            down && !repeat
        }
    }

    /// A challenge or a reply that passed its gate.
    pub open spec fn heartbeat(self, message: Message, now: nat) -> (ReceiverView, Response) {
        match message {
            Message::Ping(token) => (
                self,
                Ok(
                    if self.held_since is Some {
                        None
                    } else {
                        Some(Message::Pong(token))
                    },
                ),
            ),
            Message::Pong(token) => {
                let (health, result) = if self.held_since is Some {
                    self.health.replied_while_held(token as nat, now)
                } else {
                    self.health.replied(token as nat, now)
                };
                (
                    ReceiverView { health, ..self },
                    match result {
                        Ok(_) => Ok(None),
                        Err(error) => Err(ReceiverFailure::Health(error)),
                    },
                )
            },
            _ => (self, Ok(None)),
        }
    }

    /// What a frame must pass at `now`.
    pub open spec fn frame_check(self, frame: Frame, now: nat) -> FrameCheck {
        if self.failure is Some {
            FrameCheck::Closed
        } else if self.held_since is None && (self.health.checked(now).1 matches Err(error)
            && error != HealthError::DeadlineExpired) {
            FrameCheck::Closed
        } else if frame.message.is_heartbeat_message() {
            FrameCheck::Heartbeat
        } else {
            match frame.message {
                Message::ActivateDisplayAt { display_id, position } => if frame.epoch.value
                    == self.epoch.value + 1 && point_check(self.displays, display_id, position)
                    is Ok {
                    FrameCheck::Activation
                } else {
                    FrameCheck::Rate
                },
                _ => if frame.epoch == self.epoch {
                    FrameCheck::Sequence
                } else {
                    FrameCheck::Rate
                },
            }
        }
    }
}

/// A receiver together with the actions its destination was asked for.
///
/// `log` lists the actions so far. `answers` is the log as it stands in the end, from which each
/// further action takes its answer.
pub struct Run {
    pub state: ReceiverView,
    pub log: ActionLog,
}

pub type Response = Result<Option<Message>, ReceiverFailure>;

impl Run {
    /// How the next action is answered.
    pub open spec fn answer(self, answers: ActionLog) -> bool {
        answers[self.log.len() as int].1
    }

    /// The next action was asked for.
    pub open spec fn asked(self, action: DestinationAction, answers: ActionLog) -> Run {
        Run { log: self.log.push((action, self.answer(answers))), ..self }
    }

    /// A pending release was tried again.
    pub open spec fn cleaned(self, answers: ActionLog) -> Run {
        if !self.state.cleanup_pending {
            self
        } else {
            let asked = self.asked(DestinationAction::ReleaseAll, answers);
            if self.answer(answers) {
                Run { state: asked.state.released(), ..asked }
            } else {
                asked
            }
        }
    }

    /// Stopped for good: the first failure stays, and everything injected is released.
    pub open spec fn stopped(self, failure: ReceiverFailure, answers: ActionLog) -> Run {
        let first = match self.state.failure {
            Some(first) => first,
            None => failure,
        };
        Run {
            state: ReceiverView {
                failure: Some(first),
                active: None,
                pending_move: None,
                cleanup_pending: true,
                ..self.state
            },
            ..self
        }.cleaned(answers)
    }

    /// Stopped where the answer is a failure, as it stands otherwise.
    pub open spec fn settled<T>(
        self,
        result: Result<T, ReceiverFailure>,
        answers: ActionLog,
    ) -> (Run, Result<T, ReceiverFailure>) {
        match result {
            Ok(value) => (self, Ok(value)),
            Err(failure) => {
                let stopped = self.stopped(failure, answers);
                (stopped, Err(stopped.state.failure->0))
            },
        }
    }

    /// The waiting pointer position was injected.
    pub open spec fn moved(self, answers: ActionLog) -> (Run, Result<(), ReceiverFailure>) {
        match self.state.pending_move {
            None => (self, Ok(())),
            Some(point) => {
                let asked = self.asked(DestinationAction::MoveTo(point), answers);
                if self.answer(answers) {
                    (
                        Run { state: ReceiverView { pending_move: None, ..asked.state }, ..asked },
                        Ok(()),
                    )
                } else {
                    (asked, Err(ReceiverFailure::NativeDelivery))
                }
            },
        }
    }

    /// What [`InputReceiver::flush`] leaves and answers.
    pub open spec fn flushed(self, answers: ActionLog) -> (Run, Result<(), ReceiverFailure>) {
        match self.state.failure {
            Some(failure) => (self, Err(failure)),
            None => {
                let (run, result) = self.moved(answers);
                run.settled(result, answers)
            },
        }
    }

    /// Silent past the deadline: gestures are ended, everything injected is released, and the
    /// source's barrier awaited. A release ends gestures too, so how ending them went is not read.
    pub open spec fn held(self, now: nat, answers: ActionLog) -> (Run, Result<(), ReceiverFailure>) {
        let released = Run {
            state: ReceiverView {
                active: None,
                pending_move: None,
                cleanup_pending: true,
                ..self.state
            },
            ..self
        }.asked(DestinationAction::EndGestures, answers).cleaned(answers);
        let (health, result) = released.state.health.held(now);
        match result {
            Ok(()) => (
                Run {
                    state: ReceiverView {
                        health,
                        held_since: Some(now),
                        holds: if released.state.holds < u32::MAX {
                            released.state.holds + 1
                        } else {
                            released.state.holds
                        },
                        ..released.state
                    },
                    ..released
                },
                Ok(()),
            ),
            Err(error) => Run {
                state: ReceiverView { health, ..released.state },
                ..released
            }.settled(Err(ReceiverFailure::Health(error)), answers),
        }
    }

    /// What [`InputReceiver::tick`] leaves and answers.
    pub open spec fn ticked(self, now: nat, answers: ActionLog) -> (Run, Result<
        Option<nat>,
        ReceiverFailure,
    >) {
        match self.state.failure {
            Some(failure) => (self.cleaned(answers), Err(failure)),
            None => match self.state.held_since {
                Some(since) => if span(now, since) >= HOLD_LIMIT {
                    self.settled(
                        Err(ReceiverFailure::Health(HealthError::DeadlineExpired)),
                        answers,
                    )
                } else {
                    let cleaned = self.cleaned(answers);
                    let (health, result) = cleaned.state.health.polled_while_held(now);
                    Run {
                        state: ReceiverView { health, ..cleaned.state },
                        ..cleaned
                    }.settled(health_result(result), answers)
                },
                None => {
                    let (health, result) = self.state.health.polled(now);
                    let polled = Run { state: ReceiverView { health, ..self.state }, ..self };
                    if result == Err::<Option<nat>, _>(HealthError::DeadlineExpired) {
                        match polled.held(now, answers) {
                            (run, Ok(())) => (run, Ok(None)),
                            (run, Err(failure)) => (run, Err(failure)),
                        }
                    } else {
                        polled.settled(health_result(result), answers)
                    }
                },
            },
        }
    }

    /// The source moves to a display of this computer.
    pub open spec fn activated(
        self,
        epoch: SessionEpoch,
        display_id: DisplayId,
        position: Point,
        admission: Admission,
        answers: ActionLog,
    ) -> (Run, Response) {
        if epoch.value != self.state.epoch.value + 1 {
            (self, Err(ReceiverFailure::InvalidEpoch))
        } else if point_check(self.state.displays, display_id, position) is Err {
            (self, Err(point_check(self.state.displays, display_id, position)->Err_0))
        } else if !admission.epoch_opens {
            (self, Err(ReceiverFailure::InvalidEpoch))
        } else if admission.sequence != SequenceVerdict::Accepted {
            (self, Err(ReceiverFailure::InvalidSequence))
        } else if self.state.held_since is Some {
            (Run { state: ReceiverView { epoch, ..self.state }, ..self }, Ok(None))
        } else {
            let asked = Run {
                state: ReceiverView { pending_move: None, ..self.state },
                ..self
            }.asked(DestinationAction::MoveTo(position), answers);
            if self.answer(answers) {
                (
                    Run {
                        state: ReceiverView {
                            epoch,
                            active: Some((display_id, position)),
                            ..asked.state
                        },
                        ..asked
                    },
                    Ok(Some(Message::ActivationAck(display_id))),
                )
            } else {
                (asked, Err(ReceiverFailure::NativeDelivery))
            }
        }
    }

    /// The source gives everything back: the barrier that ends a hold.
    pub open spec fn barrier(self, now: nat, answers: ActionLog) -> (Run, Response) {
        let asked = self.asked(DestinationAction::ReleaseAll, answers);
        if !self.answer(answers) {
            (asked, Err(ReceiverFailure::NativeDelivery))
        } else {
            let up = ReceiverView {
                keys: all_up(256),
                buttons: all_up(5),
                active: None,
                ..asked.state
            };
            match self.state.held_since {
                None => (Run { state: up, ..asked }, Ok(Some(Message::ReleaseAck))),
                Some(since) => {
                    let (health, result) = up.health.resumed(now);
                    (
                        Run {
                            state: ReceiverView {
                                health,
                                cleanup_pending: false,
                                held_since: None,
                                held_max: longer(up.held_max, span(now, since)),
                                ..up
                            },
                            ..asked
                        },
                        match result {
                            Ok(()) => Ok(Some(Message::ReleaseAck)),
                            Err(error) => Err(ReceiverFailure::Health(error)),
                        },
                    )
                },
            }
        }
    }

    /// One input event of an active receiver.
    pub open spec fn input(
        self,
        message: Message,
        admission: Admission,
        answers: ActionLog,
    ) -> (Run, Response) {
        match self.state.active {
            None => (self, Err(ReceiverFailure::NotActive)),
            Some((display_id, _)) => match message {
                Message::Key(key) => {
                    if !key.usage_is_valid || key.usage.0 >= 256 || !self.state.key_agrees(
                        key.usage,
                        key.is_down,
                        key.repeat,
                    ) {
                        (self, Err(ReceiverFailure::InvalidPressedState))
                    } else {
                        let noted = Run {
                            state: ReceiverView {
                                keys: self.state.keys.update(key.usage.0 as int, key.is_down),
                                ..self.state
                            },
                            ..self
                        };
                        if modifier_mask(noted.state.keys, 8) != key.modifiers.0 {
                            (noted, Err(ReceiverFailure::InvalidPressedState))
                        } else {
                            noted.delivered(
                                DestinationAction::Key { usage: key.usage, pressed: key.is_down },
                                answers,
                            )
                        }
                    }
                },
                Message::Button(button) => if self.state.buttons[button.button.place()]
                    == button.is_down {
                    (self, Err(ReceiverFailure::InvalidPressedState))
                } else {
                    let (run, result) = self.delivered(
                        DestinationAction::Button {
                            button: button.button,
                            pressed: button.is_down,
                            click_count: button.click_count,
                        },
                        answers,
                    );
                    if result is Ok {
                        (
                            Run {
                                state: ReceiverView {
                                    buttons: run.state.buttons.update(
                                        button.button.place(),
                                        button.is_down,
                                    ),
                                    ..run.state
                                },
                                ..run
                            },
                            result,
                        )
                    } else {
                        (run, result)
                    }
                },
                Message::Scroll(scroll) => if !scroll_in_bounds(scroll) {
                    (self, Err(ReceiverFailure::InvalidPoint))
                } else {
                    self.delivered(
                        DestinationAction::Scroll {
                            horizontal: scroll.horizontal,
                            vertical: scroll.vertical,
                        },
                        answers,
                    )
                },
                Message::Motion(motion) => {
                    let next = match motion {
                        Motion::Absolute(position) => position,
                        Motion::Relative(_) => admission.landing,
                    };
                    match point_check(self.state.displays, display_id, next) {
                        Err(failure) => (self, Err(failure)),
                        Ok(()) => (
                            Run {
                                state: ReceiverView {
                                    pending_move: Some(next),
                                    active: Some((display_id, next)),
                                    ..self.state
                                },
                                ..self
                            },
                            Ok(None),
                        ),
                    }
                },
                _ => (self, Err(ReceiverFailure::UnexpectedMessage)),
            },
        }
    }

    /// The action was asked for, and its failure is a failed delivery.
    pub open spec fn delivered(self, action: DestinationAction, answers: ActionLog) -> (
        Run,
        Response,
    ) {
        (
            self.asked(action, answers),
            if self.answer(answers) {
                Ok(None)
            } else {
                Err(ReceiverFailure::NativeDelivery)
            },
        )
    }

    /// A frame of the input stream that passed its gate.
    pub open spec fn dispatched(
        self,
        message: Message,
        now: nat,
        admission: Admission,
        answers: ActionLog,
    ) -> (Run, Response) {
        let is_held = self.state.held_since is Some;
        match if is_held || message is Motion {
            (self, Ok(()))
        } else {
            self.moved(answers)
        } {
            (run, Err(failure)) => (run, Err(failure)),
            (run, Ok(())) => match message {
                Message::ReleaseAll => run.barrier(now, answers),
                Message::Disconnect | Message::Error => (run, Err(ReceiverFailure::PeerStopped)),
                Message::Key(_) | Message::Button(_) | Message::Scroll(_) | Message::Motion(_) => {
                    if is_held {
                        (run, Ok(None))
                    } else {
                        run.input(message, admission, answers)
                    }
                },
                _ => (run, Err(ReceiverFailure::UnexpectedMessage)),
            },
        }
    }

    /// A frame whose health check passed, or that found the receiver held.
    pub open spec fn admitted(
        self,
        frame: Frame,
        now: nat,
        admission: Admission,
        answers: ActionLog,
    ) -> (Run, Response) {
        let datagram = frame.delivery == DeliveryClass::MotionDatagram;
        if !admission.within_rate {
            (self, Err(ReceiverFailure::RateLimited))
        } else if frame.message.is_heartbeat_message() {
            // Datagrams may arrive out of order: a stale heartbeat is dropped.
            if admission.heartbeat_is_fresh {
                let (state, response) = self.state.heartbeat(frame.message, now);
                (Run { state, ..self }, response)
            } else {
                (self, Ok(None))
            }
        } else if frame.message is ActivateDisplayAt {
            self.activated(
                frame.epoch,
                frame.message->display_id,
                frame.message->position,
                admission,
                answers,
            )
        } else if frame.epoch != self.state.epoch {
            if datagram && frame.epoch.value < self.state.epoch.value {
                (self, Ok(None))
            } else {
                (self, Err(ReceiverFailure::InvalidEpoch))
            }
        } else if admission.sequence != SequenceVerdict::Accepted {
            if datagram && admission.sequence == SequenceVerdict::StaleOrReplay {
                (self, Ok(None))
            } else {
                (self, Err(ReceiverFailure::InvalidSequence))
            }
        } else {
            self.dispatched(frame.message, now, admission, answers)
        }
    }

    /// What a frame leaves and answers before a failure stops the receiver.
    pub open spec fn judged(
        self,
        frame: Frame,
        now: nat,
        admission: Admission,
        answers: ActionLog,
    ) -> (Run, Response) {
        if self.state.held_since is Some {
            self.admitted(frame, now, admission, answers)
        } else {
            let (health, result) = self.state.health.checked(now);
            let checked = Run { state: ReceiverView { health, ..self.state }, ..self };
            match result {
                Ok(()) => checked.admitted(frame, now, admission, answers),
                Err(error) => if error != HealthError::DeadlineExpired {
                    (checked, Err(ReceiverFailure::Health(error)))
                } else {
                    // A frame arriving just past the deadline is the first sign of the stall.
                    match checked.held(now, answers) {
                        (run, Ok(())) => run.admitted(frame, now, admission, answers),
                        (run, Err(failure)) => (run, Err(failure)),
                    }
                },
            }
        }
    }

    /// What [`InputReceiver::receive`] leaves and answers.
    pub open spec fn received(
        self,
        frame: Frame,
        now: nat,
        admission: Admission,
        answers: ActionLog,
    ) -> (Run, Response) {
        match self.state.failure {
            Some(failure) => (self, Err(failure)),
            None => {
                let (run, result) = self.judged(frame, now, admission, answers);
                run.settled(result, answers)
            },
        }
    }
}

/// A health failure as the receiver reports it.
pub open spec fn health_result<T>(result: Result<T, HealthError>) -> Result<T, ReceiverFailure> {
    match result {
        Ok(value) => Ok(value),
        Err(error) => Err(ReceiverFailure::Health(error)),
    }
}

/// The challenge to send, if one is due.
pub open spec fn ping_result(
    response: Response,
    expected: Result<Option<nat>, ReceiverFailure>,
) -> bool {
    match expected {
        Ok(Some(token)) => response matches Ok(Some(Message::Ping(issued))) && issued == token,
        Ok(None) => response == Ok::<Option<Message>, ReceiverFailure>(None),
        Err(failure) => response == Err::<Option<Message>, _>(failure),
    }
}

/// Construct only after matching SessionSetup proposals, full peer authentication and local enable.
pub struct InputReceiver {
    displays: DisplayTopology,
    epoch: SessionEpoch,
    control_epoch: SessionEpoch,
    health: PeerHealth,
    active: Option<(DisplayId, Point)>,
    /// Validated pointer motion waits here so a burst injects once; anything else flushes it first.
    pending_move: Option<Point>,
    keys: [bool; 256],
    buttons: [bool; 5],
    failure: Option<ReceiverFailure>,
    cleanup_pending: bool,
    /// Set while the source has been silent past the deadline and its barrier has not arrived.
    held_since: Option<Duration>,
    holds: u32,
    held_max: Duration,
}

impl View for InputReceiver {
    type V = ReceiverView;

    closed spec fn view(&self) -> ReceiverView {
        ReceiverView {
            displays: self.displays@,
            epoch: self.epoch,
            control_epoch: self.control_epoch,
            health: self.health@,
            active: self.active,
            pending_move: self.pending_move,
            keys: self.keys@,
            buttons: self.buttons@,
            failure: self.failure,
            cleanup_pending: self.cleanup_pending,
            held_since: match self.held_since {
                Some(since) => Some(since as nat),
                None => None,
            },
            holds: self.holds as nat,
            held_max: self.held_max as nat,
        }
    }
}

/// The receiver and what `destination` was asked for so far.
pub open spec fn run_of<D: InputDestination>(receiver: InputReceiver, destination: D) -> Run {
    Run { state: receiver@, log: destination.history() }
}

impl InputReceiver {
    pub fn new(displays: DisplayTopology, epoch: SessionEpoch, now: Duration) -> (receiver:
        InputReceiver)
        ensures
            receiver@.wf(),
            receiver@ == fresh_receiver(displays@, epoch, now as nat),
    {
        let receiver = InputReceiver {
            displays,
            epoch,
            control_epoch: epoch,
            health: PeerHealth::new(now),
            active: None,
            pending_move: None,
            keys: [false;256],
            buttons: [false;5],
            failure: None,
            cleanup_pending: false,
            held_since: None,
            holds: 0,
            held_max: ZERO,
        };
        assert(receiver.keys@ =~= all_up(256));
        assert(receiver.buttons@ =~= all_up(5));
        receiver
    }

    pub fn epoch(&self) -> (epoch: SessionEpoch)
        ensures
            epoch == self@.epoch,
    {
        self.epoch
    }

    pub fn control_epoch(&self) -> (epoch: SessionEpoch)
        ensures
            epoch == self@.control_epoch,
    {
        self.control_epoch
    }

    pub fn is_active(&self) -> (active: bool)
        ensures
            active == (self@.active is Some && self@.failure is None),
    {
        self.active.is_some() && self.failure.is_none()
    }

    pub fn active_display(&self) -> (display: Option<DisplayId>)
        ensures
            match display {
                Some(id) => self@.failure is None && (self@.active matches Some(active) && active.0
                    == id),
                None => self@.failure is Some || self@.active is None,
            },
    {
        if self.failure.is_some() {
            None
        } else {
            match self.active {
                Some((display, _)) => Some(display),
                None => None,
            }
        }
    }

    /// The point a relative motion starts from.
    pub fn active_point(&self) -> (point: Option<Point>)
        ensures
            match point {
                Some(at) => self@.active matches Some(active) && active.1 == at,
                None => self@.active is None,
            },
    {
        match self.active {
            Some((_, point)) => Some(point),
            None => None,
        }
    }

    pub fn cleanup_pending(&self) -> (pending: bool)
        ensures
            pending == self@.cleanup_pending,
    {
        self.cleanup_pending
    }

    pub fn held_since(&self) -> (since: Option<Duration>)
        ensures
            match since {
                Some(at) => self@.held_since == Some(at as nat),
                None => self@.held_since is None,
            },
    {
        self.held_since
    }

    /// How many holds this session survived and the longest one, including one still running.
    pub fn hold_stats(&self, now: Duration) -> (stats: (u32, Duration))
        ensures
            stats.0 == self@.holds,
            stats.1 == longest_hold(self@.held_max, self@.held_since, now as nat),
    {
        hold_stats(self.holds, self.held_max, self.held_since, now)
    }

    pub fn failure(&self) -> (failure: Option<ReceiverFailure>)
        ensures
            failure == self@.failure,
    {
        self.failure
    }

    /// Injects the last validated pointer position of a motion burst.
    pub fn flush<D: InputDestination>(&mut self, destination: &mut D) -> (result: Result<
        (),
        ReceiverFailure,
    >)
        requires
            old(self)@.wf(),
        ensures
            final(self)@.wf(),
            (run_of(*final(self), *final(destination)), result) == run_of(
                *old(self),
                *old(destination),
            ).flushed(final(destination).history()),
    {
        if let Some(failure) = self.failure {
            return Err(failure);
        }
        match self.apply_pending_move(destination) {
            Ok(()) => Ok(()),
            Err(failure) => Err(self.stop(failure, destination)),
        }
    }

    fn apply_pending_move<D: InputDestination>(&mut self, destination: &mut D) -> (result: Result<
        (),
        ReceiverFailure,
    >)
        requires
            old(self)@.wf(),
        ensures
            final(self)@.wf(),
            (run_of(*final(self), *final(destination)), result) == run_of(
                *old(self),
                *old(destination),
            ).moved(final(destination).history()),
    {
        if let Some(point) = self.pending_move {
            if destination.apply(DestinationAction::MoveTo(point)).is_err() {
                return Err(ReceiverFailure::NativeDelivery);
            }
            self.pending_move = None;
        }
        Ok(())
    }

    pub fn stop<D: InputDestination>(
        &mut self,
        failure: ReceiverFailure,
        destination: &mut D,
    ) -> (first: ReceiverFailure)
        requires
            old(self)@.wf(),
        ensures
            final(self)@.wf(),
            run_of(*final(self), *final(destination)) == run_of(
                *old(self),
                *old(destination),
            ).stopped(failure, final(destination).history()),
            final(self)@.failure == Some(first),
    {
        let first = match self.failure {
            Some(first) => first,
            None => failure,
        };
        self.failure = Some(first);
        self.active = None;
        self.pending_move = None;
        self.cleanup_pending = true;
        self.retry_cleanup(destination);
        first
    }

    pub fn retry_cleanup<D: InputDestination>(&mut self, destination: &mut D)
        requires
            old(self)@.wf(),
        ensures
            final(self)@.wf(),
            run_of(*final(self), *final(destination)) == run_of(
                *old(self),
                *old(destination),
            ).cleaned(final(destination).history()),
    {
        if self.cleanup_pending {
            if destination.apply(DestinationAction::ReleaseAll).is_ok() {
                self.release_state();
                self.cleanup_pending = false;
            }
        }
    }

    /// Takes over the control exchange where startup left it.
    pub fn after_startup(
        displays: DisplayTopology,
        control: ReadyControl,
        now: Duration,
    ) -> (receiver: Result<InputReceiver, ReceiverFailure>)
        requires
            control.health@.wf(),
        ensures
            match control.health@.checked(now as nat) {
                (health, Ok(())) => receiver matches Ok(ready) && ready@.wf() && ready@
                    == (ReceiverView {
                    health,
                    ..fresh_receiver(displays@, control.epoch, now as nat)
                }),
                (_, Err(error)) => receiver == Err::<InputReceiver, _>(
                    ReceiverFailure::Health(error),
                ),
            },
    {
        let mut health = control.health;
        match health.check(now) {
            Ok(()) => {},
            Err(error) => return Err(ReceiverFailure::Health(error)),
        }
        let mut receiver = InputReceiver::new(displays, control.epoch, now);
        receiver.health = health;
        Ok(receiver)
    }

    /// Time since the peer's last fresh reply, and the age of the unanswered challenge if any.
    pub fn reply_ages(&self, now: Duration) -> (ages: (Duration, Option<Duration>))
        requires
            self@.wf(),
        ensures
            ages.0 == span(now as nat, self@.health.last_response),
            match ages.1 {
                Some(age) => self@.health.last_acked + 1 < self@.health.next_token && (
                self@.health.last_sent matches Some(sent) && age == span(now as nat, sent)),
                None => self@.health.last_acked + 1 >= self@.health.next_token
                    || self@.health.last_sent is None,
            },
    {
        let pending = match self.health.pending_since() {
            Some(sent) => Some(now.saturating_sub(sent)),
            None => None,
        };
        (now.saturating_sub(self.health.last_response()), pending)
    }

    pub fn tick<D: InputDestination>(&mut self, now: Duration, destination: &mut D) -> (response:
        Response)
        requires
            old(self)@.wf(),
        ensures
            final(self)@.wf(),
            run_of(*final(self), *final(destination)) == run_of(
                *old(self),
                *old(destination),
            ).ticked(now as nat, final(destination).history()).0,
            ping_result(
                response,
                run_of(*old(self), *old(destination)).ticked(
                    now as nat,
                    final(destination).history(),
                ).1,
            ),
    {
        if let Some(failure) = self.failure {
            self.retry_cleanup(destination);
            return Err(failure);
        }
        if let Some(since) = self.held_since {
            if now.saturating_sub(since) >= HOLD_LIMIT {
                let failure = ReceiverFailure::Health(HealthError::DeadlineExpired);
                return Err(self.stop(failure, destination));
            }
            self.retry_cleanup(destination);
            return match self.health.poll_while_held(now) {
                Ok(Some(token)) => Ok(Some(Message::Ping(token))),
                Ok(None) => Ok(None),
                Err(error) => Err(self.stop(ReceiverFailure::Health(error), destination)),
            };
        }
        match self.health.poll(now) {
            Ok(Some(token)) => Ok(Some(Message::Ping(token))),
            Ok(None) => Ok(None),
            Err(HealthError::DeadlineExpired) => match self.hold(now, destination) {
                Ok(()) => Ok(None),
                Err(failure) => Err(failure),
            },
            Err(error) => Err(self.stop(ReceiverFailure::Health(error), destination)),
        }
    }

    /// No fresh reply for the whole deadline: end gestures, release everything this side injected
    /// and wait for the source's barrier instead of ending the session.
    fn hold<D: InputDestination>(&mut self, now: Duration, destination: &mut D) -> (result: Result<
        (),
        ReceiverFailure,
    >)
        requires
            old(self)@.wf(),
        ensures
            final(self)@.wf(),
            (run_of(*final(self), *final(destination)), result) == run_of(
                *old(self),
                *old(destination),
            ).held(now as nat, final(destination).history()),
    {
        self.active = None;
        self.pending_move = None;
        self.cleanup_pending = true;
        let _ = destination.apply(DestinationAction::EndGestures);
        self.retry_cleanup(destination);
        if let Err(error) = self.health.hold(now) {
            return Err(self.stop(ReceiverFailure::Health(error), destination));
        }
        self.held_since = Some(now);
        self.holds = self.holds.saturating_add(1);
        Ok(())
    }

    /// Which gates the caller has to ask before it hands `frame` to [`InputReceiver::receive`].
    pub fn frame_check(&self, frame: &Frame, now: Duration) -> (check: FrameCheck)
        requires
            self@.wf(),
        ensures
            check == self@.frame_check(*frame, now as nat),
    {
        if self.failure.is_some() {
            return FrameCheck::Closed;
        }
        if self.held_since.is_none() {
            match self.health.verdict(now) {
                Ok(()) | Err(HealthError::DeadlineExpired) => {},
                Err(_) => return FrameCheck::Closed,
            }
        }
        if frame.message.is_heartbeat() {
            return FrameCheck::Heartbeat;
        }
        match frame.message {
            Message::ActivateDisplayAt { display_id, position } => {
                if self.epoch.value.checked_add(1) == Some(frame.epoch.value) && self.check_point(
                    display_id,
                    position,
                ).is_ok() {
                    FrameCheck::Activation
                } else {
                    FrameCheck::Rate
                }
            },
            _ => if frame.epoch == self.epoch {
                FrameCheck::Sequence
            } else {
                FrameCheck::Rate
            },
        }
    }

    pub fn receive<D: InputDestination>(
        &mut self,
        frame: &Frame,
        now: Duration,
        admission: Admission,
        destination: &mut D,
    ) -> (response: Response)
        requires
            old(self)@.wf(),
        ensures
            final(self)@.wf(),
            (run_of(*final(self), *final(destination)), response) == run_of(
                *old(self),
                *old(destination),
            ).received(*frame, now as nat, admission, final(destination).history()),
    {
        if let Some(failure) = self.failure {
            return Err(failure);
        }
        let received = self.receive_active(frame, now, admission, destination);
        let ghost answered = destination.history();
        match received {
            Ok(response) => Ok(response),
            Err(failure) => {
                let first = self.stop(failure, destination);
                proof {
                    lemma_judged_reads_its_own_answers(
                        run_of(*old(self), *old(destination)),
                        *frame,
                        now as nat,
                        admission,
                        answered,
                        destination.history(),
                    );
                }
                Err(first)
            },
        }
    }

    /// A held receiver injects nothing and answers no challenge, but frames are still validated
    /// and tracked so the source's ReleaseAll, the barrier that ends the hold, still validates
    /// when it arrives.
    fn receive_active<D: InputDestination>(
        &mut self,
        frame: &Frame,
        now: Duration,
        admission: Admission,
        destination: &mut D,
    ) -> (response: Response)
        requires
            old(self)@.wf(),
        ensures
            final(self)@.wf(),
            (run_of(*final(self), *final(destination)), response) == run_of(
                *old(self),
                *old(destination),
            ).judged(*frame, now as nat, admission, final(destination).history()),
    {
        if self.held_since.is_none() {
            if let Err(error) = self.health.check(now) {
                if error != HealthError::DeadlineExpired {
                    return Err(ReceiverFailure::Health(error));
                }
                // A frame arriving just past the deadline is the first sign of the stall.
                if let Err(failure) = self.hold(now, destination) {
                    return Err(failure);
                }
            }
        }
        self.receive_admitted(frame, now, admission, destination)
    }

    fn receive_admitted<D: InputDestination>(
        &mut self,
        frame: &Frame,
        now: Duration,
        admission: Admission,
        destination: &mut D,
    ) -> (response: Response)
        requires
            old(self)@.wf(),
        ensures
            final(self)@.wf(),
            (run_of(*final(self), *final(destination)), response) == run_of(
                *old(self),
                *old(destination),
            ).admitted(*frame, now as nat, admission, final(destination).history()),
    {
        if !admission.within_rate {
            return Err(ReceiverFailure::RateLimited);
        }
        if frame.message.is_heartbeat() {
            // Datagrams may arrive out of order: a stale heartbeat is dropped, never answered or
            // trusted.
            if !admission.heartbeat_is_fresh {
                return Ok(None);
            }
            return self.receive_heartbeat(frame, now);
        }
        if let Message::ActivateDisplayAt { display_id, position } = frame.message {
            return self.receive_activation(
                frame.epoch,
                display_id,
                position,
                admission,
                destination,
            );
        }
        let datagram = frame.delivery == DeliveryClass::MotionDatagram;
        if frame.epoch != self.epoch {
            // A datagram from the epoch just left is late, not hostile; anything else is fatal.
            if datagram && frame.epoch.value < self.epoch.value {
                return Ok(None);
            }
            return Err(ReceiverFailure::InvalidEpoch);
        }
        if admission.sequence != SequenceVerdict::Accepted {
            if datagram && admission.sequence == SequenceVerdict::StaleOrReplay {
                return Ok(None);
            }
            return Err(ReceiverFailure::InvalidSequence);
        }
        self.receive_ordered(frame, now, admission, destination)
    }

    fn receive_heartbeat(&mut self, frame: &Frame, now: Duration) -> (response: Response)
        requires
            old(self)@.wf(),
            frame.message.is_heartbeat_message(),
        ensures
            final(self)@.wf(),
            (final(self)@, response) == old(self)@.heartbeat(frame.message, now as nat),
    {
        match frame.message {
            Message::Ping(token) => if self.held_since.is_some() {
                Ok(None)
            } else {
                Ok(Some(Message::Pong(token)))
            },
            Message::Pong(token) => {
                if self.held_since.is_some() {
                    if let Err(error) = self.health.receive_pong_while_held(token, now) {
                        return Err(ReceiverFailure::Health(error));
                    }
                } else {
                    if let Err(error) = self.health.receive_pong(token, now) {
                        return Err(ReceiverFailure::Health(error));
                    }
                }
                Ok(None)
            },
            _ => Ok(None),
        }
    }

    fn receive_activation<D: InputDestination>(
        &mut self,
        epoch: SessionEpoch,
        display_id: DisplayId,
        position: Point,
        admission: Admission,
        destination: &mut D,
    ) -> (response: Response)
        requires
            old(self)@.wf(),
        ensures
            final(self)@.wf(),
            (run_of(*final(self), *final(destination)), response) == run_of(
                *old(self),
                *old(destination),
            ).activated(epoch, display_id, position, admission, final(destination).history()),
    {
        if self.epoch.value.checked_add(1) != Some(epoch.value) {
            return Err(ReceiverFailure::InvalidEpoch);
        }
        if let Err(failure) = self.check_point(display_id, position) {
            return Err(failure);
        }
        if !admission.epoch_opens {
            return Err(ReceiverFailure::InvalidEpoch);
        }
        if admission.sequence != SequenceVerdict::Accepted {
            return Err(ReceiverFailure::InvalidSequence);
        }
        if self.held_since.is_some() {
            self.epoch = epoch;
            return Ok(None);
        }
        // Moving between displays on this destination preserves an in-progress drag.
        self.pending_move = None;
        if destination.apply(DestinationAction::MoveTo(position)).is_err() {
            return Err(ReceiverFailure::NativeDelivery);
        }
        self.epoch = epoch;
        self.active = Some((display_id, position));
        Ok(Some(Message::ActivationAck(display_id)))
    }

    fn receive_ordered<D: InputDestination>(
        &mut self,
        frame: &Frame,
        now: Duration,
        admission: Admission,
        destination: &mut D,
    ) -> (response: Response)
        requires
            old(self)@.wf(),
        ensures
            final(self)@.wf(),
            (run_of(*final(self), *final(destination)), response) == run_of(
                *old(self),
                *old(destination),
            ).dispatched(frame.message, now as nat, admission, final(destination).history()),
    {
        let is_held = self.held_since.is_some();
        let is_motion = matches!(frame.message, Message::Motion(_));
        if !is_held && !is_motion {
            if let Err(failure) = self.apply_pending_move(destination) {
                return Err(failure);
            }
        }
        match &frame.message {
            Message::ReleaseAll => self.receive_barrier(now, destination),
            Message::Disconnect | Message::Error => Err(ReceiverFailure::PeerStopped),
            Message::Key(_) | Message::Button(_) | Message::Scroll(_) | Message::Motion(_) => {
                if is_held {
                    Ok(None)
                } else {
                    self.receive_input(frame, admission, destination)
                }
            },
            _ => Err(ReceiverFailure::UnexpectedMessage),
        }
    }

    fn receive_barrier<D: InputDestination>(&mut self, now: Duration, destination: &mut D) -> (
    response: Response)
        requires
            old(self)@.wf(),
        ensures
            final(self)@.wf(),
            (run_of(*final(self), *final(destination)), response) == run_of(
                *old(self),
                *old(destination),
            ).barrier(now as nat, final(destination).history()),
    {
        if destination.apply(DestinationAction::ReleaseAll).is_err() {
            return Err(ReceiverFailure::NativeDelivery);
        }
        self.release_state();
        self.active = None;
        if let Some(since) = self.held_since {
            self.cleanup_pending = false;
            self.held_since = None;
            self.held_max = longest(self.held_max, now.saturating_sub(since));
            if let Err(error) = self.health.resume(now) {
                return Err(ReceiverFailure::Health(error));
            }
        }
        Ok(Some(Message::ReleaseAck))
    }

    fn receive_input<D: InputDestination>(
        &mut self,
        frame: &Frame,
        admission: Admission,
        destination: &mut D,
    ) -> (response: Response)
        requires
            old(self)@.wf(),
        ensures
            final(self)@.wf(),
            (run_of(*final(self), *final(destination)), response) == run_of(
                *old(self),
                *old(destination),
            ).input(frame.message, admission, final(destination).history()),
    {
        let display_id = match self.active {
            Some((display_id, _)) => display_id,
            None => return Err(ReceiverFailure::NotActive),
        };
        match frame.message {
            Message::Key(key) => {
                if !key.usage_is_valid || key.usage.0 >= 256 {
                    return Err(ReceiverFailure::InvalidPressedState);
                }
                let index: usize = key.usage.0 as usize;
                let down = self.keys[index];
                if (key.is_down && key.repeat != down) || (!key.is_down && (!down || key.repeat)) {
                    return Err(ReceiverFailure::InvalidPressedState);
                }
                self.keys[index] = key.is_down;
                if self.modifiers() != key.modifiers {
                    return Err(ReceiverFailure::InvalidPressedState);
                }
                let action = DestinationAction::Key { usage: key.usage, pressed: key.is_down };
                if destination.apply(action).is_err() {
                    return Err(ReceiverFailure::NativeDelivery);
                }
                Ok(None)
            },
            Message::Button(button) => {
                let index: usize = button.button.index();
                if self.buttons[index] == button.is_down {
                    return Err(ReceiverFailure::InvalidPressedState);
                }
                let action = DestinationAction::Button {
                    button: button.button,
                    pressed: button.is_down,
                    click_count: button.click_count,
                };
                if destination.apply(action).is_err() {
                    return Err(ReceiverFailure::NativeDelivery);
                }
                self.buttons[index] = button.is_down;
                Ok(None)
            },
            Message::Scroll(scroll) => {
                if scroll.horizontal < -MILLION_COORDINATE || scroll.horizontal
                    > MILLION_COORDINATE || scroll.vertical < -MILLION_COORDINATE
                    || scroll.vertical > MILLION_COORDINATE {
                    return Err(ReceiverFailure::InvalidPoint);
                }
                let action = DestinationAction::Scroll {
                    horizontal: scroll.horizontal,
                    vertical: scroll.vertical,
                };
                if destination.apply(action).is_err() {
                    return Err(ReceiverFailure::NativeDelivery);
                }
                Ok(None)
            },
            Message::Motion(motion) => {
                let next = match motion {
                    Motion::Absolute(position) => position,
                    Motion::Relative(_) => admission.landing,
                };
                if let Err(failure) = self.check_point(display_id, next) {
                    return Err(failure);
                }
                self.pending_move = Some(next);
                self.active = Some((display_id, next));
                Ok(None)
            },
            _ => Err(ReceiverFailure::UnexpectedMessage),
        }
    }

    fn modifiers(&self) -> (state: ModifierState)
        requires
            self@.wf(),
        ensures
            state.0 == modifier_mask(self@.keys, 8),
    {
        let mut mask: u8 = 0;
        let mut weight: u16 = 1;
        let mut index: usize = 0;
        proof {
            vstd::arithmetic::power2::lemma2_to64();
        }
        while index < 8
            invariant
                index <= 8,
                self@.wf(),
                weight == vstd::arithmetic::power2::pow2(index as nat),
                mask == modifier_mask(self@.keys, index as nat),
                mask < weight <= 256,
            decreases 8 - index,
        {
            proof {
                vstd::arithmetic::power2::lemma2_to64();
                vstd::arithmetic::power2::lemma_pow2_unfold((index + 1) as nat);
            }
            if self.keys[0xe0 + index] {
                mask = mask + weight as u8;
            }
            weight = weight * 2;
            index = index + 1;
        }
        ModifierState(mask)
    }

    fn check_point(&self, id: DisplayId, point: Point) -> (result: Result<(), ReceiverFailure>)
        ensures
            result == point_check(self@.displays, id, point),
    {
        match self.displays.position(id) {
            None => Err(ReceiverFailure::WrongDisplay),
            Some(index) => if self.displays.displays[index].contains(point) {
                Ok(())
            } else {
                Err(ReceiverFailure::InvalidPoint)
            },
        }
    }

    fn release_state(&mut self)
        ensures
            final(self)@ == (ReceiverView {
                keys: all_up(256),
                buttons: all_up(5),
                ..old(self)@
            }),
    {
        self.keys = [false;256];
        self.buttons = [false;5];
        assert(self.keys@ =~= all_up(256));
        assert(self.buttons@ =~= all_up(5));
    }
}

/// `long` holds what `short` holds and perhaps more after it.
pub open spec fn extends(short: ActionLog, long: ActionLog) -> bool {
    &&& short.len() <= long.len()
    &&& forall|i: int| 0 <= i < short.len() ==> #[trigger] short[i] == long[i]
}

proof fn lemma_moved_reads_its_own_answers(run: Run, short: ActionLog, long: ActionLog)
    requires
        extends(short, long),
        run.moved(short).0.log.len() <= short.len(),
    ensures
        run.moved(long) == run.moved(short),
        run.log.len() <= run.moved(short).0.log.len(),
{
}

proof fn lemma_held_reads_its_own_answers(run: Run, now: nat, short: ActionLog, long: ActionLog)
    requires
        extends(short, long),
        run.held(now, short).0.log.len() <= short.len(),
    ensures
        run.held(now, long) == run.held(now, short),
        run.log.len() <= run.held(now, short).0.log.len(),
{
}

proof fn lemma_input_reads_its_own_answers(
    run: Run,
    message: Message,
    admission: Admission,
    short: ActionLog,
    long: ActionLog,
)
    requires
        extends(short, long),
        run.input(message, admission, short).0.log.len() <= short.len(),
    ensures
        run.input(message, admission, long) == run.input(message, admission, short),
        run.log.len() <= run.input(message, admission, short).0.log.len(),
{
}

proof fn lemma_barrier_reads_its_own_answers(run: Run, now: nat, short: ActionLog, long: ActionLog)
    requires
        extends(short, long),
        run.barrier(now, short).0.log.len() <= short.len(),
    ensures
        run.barrier(now, long) == run.barrier(now, short),
        run.log.len() <= run.barrier(now, short).0.log.len(),
{
}

proof fn lemma_dispatched_reads_its_own_answers(
    run: Run,
    message: Message,
    now: nat,
    admission: Admission,
    short: ActionLog,
    long: ActionLog,
)
    requires
        extends(short, long),
        run.dispatched(message, now, admission, short).0.log.len() <= short.len(),
    ensures
        run.dispatched(message, now, admission, long) == run.dispatched(
            message,
            now,
            admission,
            short,
        ),
        run.log.len() <= run.dispatched(message, now, admission, short).0.log.len(),
{
    let next = if run.state.held_since is Some || message is Motion {
        run
    } else {
        run.moved(short).0
    };
    if message is ReleaseAll {
        assert(next.log.len() <= next.barrier(now, short).0.log.len());
        if next.barrier(now, short).0.log.len() <= short.len() {
            lemma_barrier_reads_its_own_answers(next, now, short, long);
        }
    } else {
        assert(next.log.len() <= next.input(message, admission, short).0.log.len());
        if next.input(message, admission, short).0.log.len() <= short.len() {
            lemma_input_reads_its_own_answers(next, message, admission, short, long);
        }
    }
    if run.moved(short).0.log.len() <= short.len() {
        lemma_moved_reads_its_own_answers(run, short, long);
    }
}

proof fn lemma_admitted_reads_its_own_answers(
    run: Run,
    frame: Frame,
    now: nat,
    admission: Admission,
    short: ActionLog,
    long: ActionLog,
)
    requires
        extends(short, long),
        run.admitted(frame, now, admission, short).0.log.len() <= short.len(),
    ensures
        run.admitted(frame, now, admission, long) == run.admitted(frame, now, admission, short),
        run.log.len() <= run.admitted(frame, now, admission, short).0.log.len(),
{
    if run.dispatched(frame.message, now, admission, short).0.log.len() <= short.len() {
        lemma_dispatched_reads_its_own_answers(run, frame.message, now, admission, short, long);
    }
}

proof fn lemma_judged_reads_its_own_answers(
    run: Run,
    frame: Frame,
    now: nat,
    admission: Admission,
    short: ActionLog,
    long: ActionLog,
)
    requires
        extends(short, long),
        run.judged(frame, now, admission, short).0.log.len() <= short.len(),
    ensures
        run.judged(frame, now, admission, long) == run.judged(frame, now, admission, short),
{
    let (health, result) = run.state.health.checked(now);
    let checked = Run { state: ReceiverView { health, ..run.state }, ..run };
    let (held, held_result) = checked.held(now, short);
    if run.state.held_since is Some {
        lemma_admitted_reads_its_own_answers(run, frame, now, admission, short, long);
    } else if result is Ok {
        lemma_admitted_reads_its_own_answers(checked, frame, now, admission, short, long);
    } else if result == Err::<(), _>(HealthError::DeadlineExpired) {
        if held_result is Ok {
            lemma_admitted_reads_its_own_answers(held, frame, now, admission, short, long);
        }
        lemma_held_reads_its_own_answers(checked, now, short, long);
    }
}

/// A receiver that has seen nothing yet.
pub open spec fn fresh_receiver(
    displays: Seq<DisplayDescription>,
    epoch: SessionEpoch,
    now: nat,
) -> ReceiverView {
    ReceiverView {
        displays,
        epoch,
        control_epoch: epoch,
        health: HealthView {
            last_now: now,
            last_response: now,
            last_sent: None,
            next_token: 1,
            last_acked: 0,
            confirmed: false,
            failure: None,
        },
        active: None,
        pending_move: None,
        keys: all_up(256),
        buttons: all_up(5),
        failure: None,
        cleanup_pending: false,
        held_since: None,
        holds: 0,
        held_max: 0,
    }
}

/// A stopped receiver answers its failure for good and injects nothing more. Only a release that
/// still waits is tried again, by a tick.
pub proof fn law_a_stopped_receiver_stays_stopped(
    run: Run,
    failure: ReceiverFailure,
    frame: Frame,
    now: nat,
    admission: Admission,
    answers: ActionLog,
)
    requires
        run.state.failure == Some(failure),
    ensures
        run.received(frame, now, admission, answers) == (run, Err::<Option<Message>, _>(failure)),
        run.flushed(answers) == (run, Err::<(), _>(failure)),
        run.ticked(now, answers) == (run.cleaned(answers), Err::<Option<nat>, _>(failure)),
        run.cleaned(answers).state.failure == Some(failure),
{
}

/// Every refusal releases: a frame, a tick or a flush that fails a running receiver leaves a
/// `ReleaseAll` as the last action asked for, and nothing active.
pub proof fn law_a_failure_releases_everything(
    run: Run,
    frame: Frame,
    now: nat,
    admission: Admission,
    answers: ActionLog,
)
    requires
        run.state.failure is None,
    ensures
        ({
            let (after, response) = run.received(frame, now, admission, answers);
            response is Err ==> released_last(after)
        }),
        ({
            let (after, response) = run.ticked(now, answers);
            response is Err ==> released_last(after)
        }),
        ({
            let (after, response) = run.flushed(answers);
            response is Err ==> released_last(after)
        }),
{
    let (judged, result) = run.judged(frame, now, admission, answers);
    assert(result is Err ==> released_last(judged.stopped(result->Err_0, answers)));
}

/// Stopped, with the release of all input asked for last.
pub open spec fn released_last(run: Run) -> bool {
    &&& run.state.failure is Some
    &&& run.state.active is None
    &&& run.state.pending_move is None
    &&& run.log.len() > 0
    &&& run.log.last().0 == DestinationAction::ReleaseAll
    &&& run.state.cleanup_pending == !run.log.last().1
}

/// `after` differs from `before` only by releases asked for.
pub open spec fn only_releases(before: ActionLog, after: ActionLog) -> bool {
    &&& before.len() <= after.len()
    &&& forall|i: int|
        before.len() <= i < after.len() ==> (#[trigger] after[i]).0 == DestinationAction::ReleaseAll
}

/// While a receiver is held it injects nothing, whatever arrives: all it asks for is release.
pub proof fn law_a_held_receiver_injects_nothing(
    run: Run,
    frame: Frame,
    now: nat,
    admission: Admission,
    answers: ActionLog,
)
    requires
        run.state.held_since is Some,
    ensures
        only_releases(run.log, run.received(frame, now, admission, answers).0.log),
        only_releases(run.log, run.ticked(now, answers).0.log),
{
}

/// Only the source's barrier ends a hold, once it was applied here.
pub proof fn law_only_the_barrier_ends_a_hold(
    run: Run,
    frame: Frame,
    now: nat,
    admission: Admission,
    answers: ActionLog,
)
    requires
        run.state.held_since is Some,
    ensures
        run.ticked(now, answers).0.state.held_since == run.state.held_since,
        run.received(frame, now, admission, answers).0.state.held_since is None ==> {
            &&& frame.message is ReleaseAll
            &&& frame.epoch == run.state.epoch
            &&& admission.sequence == SequenceVerdict::Accepted
            &&& run.answer(answers)
        },
{
}

/// A held receiver answers no challenge.
pub proof fn law_a_held_receiver_answers_no_challenge(
    run: Run,
    frame: Frame,
    now: nat,
    admission: Admission,
    answers: ActionLog,
)
    requires
        run.state.held_since is Some,
    ensures
        run.received(frame, now, admission, answers).1 matches Ok(Some(message)) ==> message
            is ReleaseAck,
{
}

/// A hold without a barrier ends at the limit, as an expired deadline.
pub proof fn law_a_hold_ends_at_its_limit(run: Run, since: nat, now: nat, answers: ActionLog)
    requires
        run.state.failure is None,
        run.state.held_since == Some(since),
        since + HOLD_LIMIT <= now,
    ensures
        run.ticked(now, answers).1 == Err::<Option<nat>, _>(
            ReceiverFailure::Health(HealthError::DeadlineExpired),
        ),
{
}

/// A hold changes no verdict on a frame: it is refused while held exactly where it is refused
/// otherwise, and for the same reason. Left out are heartbeats; what accepted input says, which a
/// held receiver drops unread; the health of a hold that an accepted barrier ends; and a refusal of
/// the destination itself.
pub proof fn law_a_hold_rejects_the_same_frames(
    run: Run,
    since: nat,
    frame: Frame,
    now: nat,
    admission: Admission,
    answers: ActionLog,
    failure: ReceiverFailure,
)
    requires
        run.state.held_since is None,
        run.state.pending_move is None,
        !frame.message.is_heartbeat_message(),
        !(frame.message is Key || frame.message is Button || frame.message is Scroll
            || frame.message is Motion) || frame.epoch != run.state.epoch || admission.sequence
            != SequenceVerdict::Accepted,
        !(frame.message is ReleaseAll) || frame.epoch != run.state.epoch || admission.sequence
            != SequenceVerdict::Accepted || !(failure is Health),
        failure != ReceiverFailure::NativeDelivery,
    ensures
        ({
            let held = Run {
                state: ReceiverView { held_since: Some(since), ..run.state },
                ..run
            };
            run.admitted(frame, now, admission, answers).1 == Err::<Option<Message>, _>(failure)
                <==> held.admitted(frame, now, admission, answers).1 == Err::<Option<Message>, _>(
                failure,
            )
        }),
{
}

/// An acknowledgement follows the native completion it reports: positioning for an activation,
/// release for a barrier.
pub proof fn law_acknowledgement_follows_native_completion(
    run: Run,
    frame: Frame,
    now: nat,
    admission: Admission,
    answers: ActionLog,
)
    ensures
        ({
            let (after, response) = run.received(frame, now, admission, answers);
            &&& response matches Ok(Some(Message::ActivationAck(display))) ==> {
                &&& frame.message is ActivateDisplayAt
                &&& after.log.last() == (DestinationAction::MoveTo(frame.message->position), true)
                &&& after.state.active == Some((display, frame.message->position))
                &&& after.state.epoch == frame.epoch
            }
            &&& response == Ok::<Option<Message>, ReceiverFailure>(Some(Message::ReleaseAck)) ==> {
                &&& frame.message is ReleaseAll
                &&& after.log.last() == (DestinationAction::ReleaseAll, true)
                &&& after.state.keys == all_up(256)
                &&& after.state.buttons == all_up(5)
            }
        }),
{
}

/// A waiting pointer position is the active one, and lies on the active display. None waits in a
/// hold.
pub open spec fn motion_is_placed(state: ReceiverView) -> bool {
    &&& state.held_since is Some ==> state.pending_move is None
    &&& state.pending_move matches Some(point) ==> (state.active matches Some(active) && active.1
        == point)
    &&& state.active matches Some(active) ==> point_check(state.displays, active.0, active.1) is Ok
}

/// Some display of the receiver holds `point`.
pub open spec fn on_some_display(displays: Seq<DisplayDescription>, point: Point) -> bool {
    exists|id: DisplayId| #[trigger] point_check(displays, id, point) is Ok
}

/// Every move asked for after `before` lands on a display.
pub open spec fn moves_stay_on_displays(
    displays: Seq<DisplayDescription>,
    before: ActionLog,
    after: ActionLog,
) -> bool {
    &&& before.len() <= after.len()
    &&& forall|i: int|
        before.len() <= i < after.len() ==> ((#[trigger] after[i]).0 matches DestinationAction::MoveTo(
            point,
        ) ==> on_some_display(displays, point))
}

/// One step keeps the motion placed and moves only onto displays.
spec fn step_is_placed(before: Run, after: Run) -> bool {
    &&& after.state.displays == before.state.displays
    &&& motion_is_placed(after.state)
    &&& moves_stay_on_displays(before.state.displays, before.log, after.log)
}

proof fn lemma_steps_chain(a: Run, b: Run, c: Run)
    requires
        step_is_placed(a, b),
        step_is_placed(b, c),
        extends(b.log, c.log),
    ensures
        step_is_placed(a, c),
{
    assert forall|i: int| a.log.len() <= i < c.log.len() implies ((
    #[trigger] c.log[i]).0 matches DestinationAction::MoveTo(point) ==> on_some_display(
        a.state.displays,
        point,
    )) by {
        if i < b.log.len() {
            assert(b.log[i] == c.log[i]);
        }
    }
}

proof fn lemma_release_is_placed(run: Run, failure: ReceiverFailure, now: nat, answers: ActionLog)
    requires
        motion_is_placed(run.state),
    ensures
        step_is_placed(run, run.cleaned(answers)),
        extends(run.log, run.cleaned(answers).log),
        step_is_placed(run, run.stopped(failure, answers)),
        extends(run.log, run.stopped(failure, answers).log),
        step_is_placed(run, run.held(now, answers).0),
        extends(run.log, run.held(now, answers).0.log),
{
}

proof fn lemma_move_is_placed(run: Run, answers: ActionLog)
    requires
        motion_is_placed(run.state),
    ensures
        step_is_placed(run, run.moved(answers).0),
        extends(run.log, run.moved(answers).0.log),
{
    if let Some(active) = run.state.active {
        assert(point_check(run.state.displays, active.0, active.1) is Ok);
    }
}

proof fn lemma_dispatch_is_placed(
    run: Run,
    message: Message,
    now: nat,
    admission: Admission,
    answers: ActionLog,
)
    requires
        motion_is_placed(run.state),
    ensures
        step_is_placed(run, run.dispatched(message, now, admission, answers).0),
        extends(run.log, run.dispatched(message, now, admission, answers).0.log),
{
    lemma_move_is_placed(run, answers);
    let moved = if run.state.held_since is Some || message is Motion {
        run
    } else {
        run.moved(answers).0
    };
    if moved.state.pending_move is None {
        assert(step_is_placed(moved, moved.barrier(now, answers).0));
        assert(extends(moved.log, moved.barrier(now, answers).0.log));
        lemma_steps_chain(run, moved, moved.barrier(now, answers).0);
    }
    if moved.state.held_since is None {
        assert(step_is_placed(moved, moved.input(message, admission, answers).0));
        assert(extends(moved.log, moved.input(message, admission, answers).0.log));
        lemma_steps_chain(run, moved, moved.input(message, admission, answers).0);
    }
}

proof fn lemma_admission_is_placed(
    run: Run,
    frame: Frame,
    now: nat,
    admission: Admission,
    answers: ActionLog,
)
    requires
        motion_is_placed(run.state),
    ensures
        step_is_placed(run, run.admitted(frame, now, admission, answers).0),
        extends(run.log, run.admitted(frame, now, admission, answers).0.log),
{
    lemma_dispatch_is_placed(run, frame.message, now, admission, answers);
    if frame.message is ActivateDisplayAt {
        let id = frame.message->display_id;
        let at = frame.message->position;
        assert(point_check(run.state.displays, id, at) is Ok ==> on_some_display(
            run.state.displays,
            at,
        ));
        let after = run.activated(frame.epoch, id, at, admission, answers).0;
        assert(step_is_placed(run, after));
    }
}

proof fn lemma_judgement_is_placed(
    run: Run,
    frame: Frame,
    now: nat,
    admission: Admission,
    answers: ActionLog,
)
    requires
        motion_is_placed(run.state),
    ensures
        step_is_placed(run, run.judged(frame, now, admission, answers).0),
        extends(run.log, run.judged(frame, now, admission, answers).0.log),
{
    if run.state.held_since is Some {
        lemma_admission_is_placed(run, frame, now, admission, answers);
    } else {
        let (health, result) = run.state.health.checked(now);
        let checked = Run { state: ReceiverView { health, ..run.state }, ..run };
        lemma_admission_is_placed(checked, frame, now, admission, answers);
        lemma_release_is_placed(checked, ReceiverFailure::PeerStopped, now, answers);
        let held = checked.held(now, answers).0;
        lemma_admission_is_placed(held, frame, now, admission, answers);
        lemma_steps_chain(checked, held, held.admitted(frame, now, admission, answers).0);
    }
}

proof fn lemma_settled_is_placed<T>(
    run: Run,
    judged: Run,
    result: Result<T, ReceiverFailure>,
    now: nat,
    answers: ActionLog,
)
    requires
        step_is_placed(run, judged),
        extends(run.log, judged.log),
    ensures
        step_is_placed(run, judged.settled(result, answers).0),
{
    if let Err(failure) = result {
        lemma_release_is_placed(judged, failure, now, answers);
        lemma_steps_chain(run, judged, judged.stopped(failure, answers));
    }
}

proof fn lemma_receive_is_placed(
    run: Run,
    frame: Frame,
    now: nat,
    admission: Admission,
    answers: ActionLog,
)
    requires
        motion_is_placed(run.state),
    ensures
        step_is_placed(run, run.received(frame, now, admission, answers).0),
{
    lemma_judgement_is_placed(run, frame, now, admission, answers);
    let (judged, result) = run.judged(frame, now, admission, answers);
    lemma_settled_is_placed(run, judged, result, now, answers);
}

proof fn lemma_flush_is_placed(run: Run, now: nat, answers: ActionLog)
    requires
        motion_is_placed(run.state),
    ensures
        step_is_placed(run, run.flushed(answers).0),
{
    lemma_move_is_placed(run, answers);
    let (moved, result) = run.moved(answers);
    lemma_settled_is_placed(run, moved, result, now, answers);
}

proof fn lemma_tick_is_placed(run: Run, now: nat, answers: ActionLog)
    requires
        motion_is_placed(run.state),
    ensures
        step_is_placed(run, run.ticked(now, answers).0),
{
}

/// No point outside the displays ever reaches the destination, in a burst or out of it.
pub proof fn law_injected_moves_stay_on_the_displays(
    run: Run,
    frame: Frame,
    now: nat,
    admission: Admission,
    answers: ActionLog,
)
    requires
        motion_is_placed(run.state),
    ensures
        motion_is_placed(run.received(frame, now, admission, answers).0.state),
        motion_is_placed(run.flushed(answers).0.state),
        motion_is_placed(run.ticked(now, answers).0.state),
        moves_stay_on_displays(
            run.state.displays,
            run.log,
            run.received(frame, now, admission, answers).0.log,
        ),
        moves_stay_on_displays(run.state.displays, run.log, run.flushed(answers).0.log),
        moves_stay_on_displays(run.state.displays, run.log, run.ticked(now, answers).0.log),
{
    lemma_receive_is_placed(run, frame, now, admission, answers);
    lemma_flush_is_placed(run, now, answers);
    lemma_tick_is_placed(run, now, answers);
}

/// The input epoch never goes back, and an activation moves it by exactly one.
pub proof fn law_epochs_advance_by_one(
    run: Run,
    frame: Frame,
    now: nat,
    admission: Admission,
    answers: ActionLog,
)
    ensures
        ({
            let after = run.received(frame, now, admission, answers).0.state.epoch;
            after == run.state.epoch || (frame.message is ActivateDisplayAt && after == frame.epoch
                && after.value == run.state.epoch.value + 1)
        }),
        run.received(frame, now, admission, answers).0.state.control_epoch
            == run.state.control_epoch,
{
    let (health, result) = run.state.health.checked(now);
    let checked = Run { state: ReceiverView { health, ..run.state }, ..run };
    lemma_admission_moves_the_epoch_by_one(run, frame, now, admission, answers);
    lemma_admission_moves_the_epoch_by_one(checked, frame, now, admission, answers);
    let held = checked.held(now, answers).0;
    assert(held.state.epoch == run.state.epoch && held.state.control_epoch
        == run.state.control_epoch);
    lemma_admission_moves_the_epoch_by_one(held, frame, now, admission, answers);
    let (judged, verdict) = run.judged(frame, now, admission, answers);
    assert(judged.state.epoch == run.state.epoch || (frame.message is ActivateDisplayAt
        && judged.state.epoch == frame.epoch && judged.state.epoch.value == run.state.epoch.value
        + 1));
}

proof fn lemma_admission_moves_the_epoch_by_one(
    run: Run,
    frame: Frame,
    now: nat,
    admission: Admission,
    answers: ActionLog,
)
    ensures
        ({
            let after = run.admitted(frame, now, admission, answers).0.state;
            &&& after.control_epoch == run.state.control_epoch
            &&& after.epoch == run.state.epoch || (frame.message is ActivateDisplayAt && after.epoch
                == frame.epoch && after.epoch.value == run.state.epoch.value + 1)
        }),
{
}

/// The keys that the actions in `log` leave pressed at the destination.
pub open spec fn keys_left_down(log: ActionLog) -> Seq<bool>
    decreases log.len(),
{
    if log.len() == 0 {
        all_up(256)
    } else {
        let before = keys_left_down(log.drop_last());
        match log.last() {
            (DestinationAction::Key { usage, pressed }, true) => before.update(
                usage.0 as int,
                pressed,
            ),
            (DestinationAction::ReleaseAll, true) => all_up(256),
            _ => before,
        }
    }
}

/// The buttons that the actions in `log` leave pressed at the destination.
pub open spec fn buttons_left_down(log: ActionLog) -> Seq<bool>
    decreases log.len(),
{
    if log.len() == 0 {
        all_up(5)
    } else {
        let before = buttons_left_down(log.drop_last());
        match log.last() {
            (DestinationAction::Button { button, pressed, .. }, true) => before.update(
                button.place(),
                pressed,
            ),
            (DestinationAction::ReleaseAll, true) => all_up(5),
            _ => before,
        }
    }
}

/// What the receiver takes to be down is what the destination was left with.
pub open spec fn tracks_the_destination(run: Run) -> bool {
    &&& run.state.keys == keys_left_down(run.log)
    &&& run.state.buttons == buttons_left_down(run.log)
}

/// A receiver that runs, or that gave everything back, knows what is down at its destination.
pub open spec fn knows_what_is_down(run: Run) -> bool {
    run.state.failure is None || !run.state.cleanup_pending ==> tracks_the_destination(run)
}

proof fn lemma_asked_is_logged(run: Run, action: DestinationAction, answers: ActionLog)
    ensures
        ({
            let asked = run.asked(action, answers);
            &&& asked.state == run.state
            &&& asked.log.drop_last() == run.log
            &&& asked.log.last() == (action, run.answer(answers))
            &&& keys_left_down(asked.log) == (match (action, run.answer(answers)) {
                (DestinationAction::Key { usage, pressed }, true) => keys_left_down(run.log).update(
                    usage.0 as int,
                    pressed,
                ),
                (DestinationAction::ReleaseAll, true) => all_up(256),
                _ => keys_left_down(run.log),
            })
            &&& buttons_left_down(asked.log) == (match (action, run.answer(answers)) {
                (DestinationAction::Button { button, pressed, .. }, true) => buttons_left_down(
                    run.log,
                ).update(button.place(), pressed),
                (DestinationAction::ReleaseAll, true) => all_up(5),
                _ => buttons_left_down(run.log),
            })
        }),
{
    let asked = run.asked(action, answers);
    assert(asked.log.drop_last() =~= run.log);
}

proof fn lemma_cleaned_is_tracked(run: Run, answers: ActionLog)
    requires
        knows_what_is_down(run) || run.state.cleanup_pending,
    ensures
        knows_what_is_down(run) ==> knows_what_is_down(run.cleaned(answers)),
        run.state.failure is Some ==> knows_what_is_down(run.cleaned(answers)),
        tracks_the_destination(run) ==> tracks_the_destination(run.cleaned(answers)),
{
    lemma_asked_is_logged(run, DestinationAction::ReleaseAll, answers);
}

proof fn lemma_stopped_is_tracked(run: Run, failure: ReceiverFailure, answers: ActionLog)
    ensures
        knows_what_is_down(run.stopped(failure, answers)),
{
    let first = match run.state.failure {
        Some(first) => first,
        None => failure,
    };
    let stopping = Run {
        state: ReceiverView {
            failure: Some(first),
            active: None,
            pending_move: None,
            cleanup_pending: true,
            ..run.state
        },
        ..run
    };
    lemma_cleaned_is_tracked(stopping, answers);
}

proof fn lemma_held_is_tracked(run: Run, now: nat, answers: ActionLog)
    requires
        run.state.failure is None,
        tracks_the_destination(run),
    ensures
        knows_what_is_down(run.held(now, answers).0),
        run.held(now, answers).1 is Ok ==> tracks_the_destination(run.held(now, answers).0)
            && run.held(now, answers).0.state.failure is None,
{
    let quiet = Run {
        state: ReceiverView {
            active: None,
            pending_move: None,
            cleanup_pending: true,
            ..run.state
        },
        ..run
    };
    lemma_asked_is_logged(quiet, DestinationAction::EndGestures, answers);
    let ended = quiet.asked(DestinationAction::EndGestures, answers);
    lemma_cleaned_is_tracked(ended, answers);
    let released = ended.cleaned(answers);
    let (health, result) = released.state.health.held(now);
    if let Err(error) = result {
        lemma_stopped_is_tracked(
            Run { state: ReceiverView { health, ..released.state }, ..released },
            ReceiverFailure::Health(error),
            answers,
        );
    }
}

proof fn lemma_dispatch_is_tracked(
    run: Run,
    message: Message,
    now: nat,
    admission: Admission,
    answers: ActionLog,
)
    requires
        run.state.failure is None,
        tracks_the_destination(run),
    ensures
        ({
            let (after, response) = run.dispatched(message, now, admission, answers);
            after.state.failure is None && (response is Ok ==> tracks_the_destination(after))
        }),
{
    let next = if run.state.held_since is Some || message is Motion {
        run
    } else {
        if let Some(point) = run.state.pending_move {
            lemma_asked_is_logged(run, DestinationAction::MoveTo(point), answers);
        }
        run.moved(answers).0
    };
    assert(tracks_the_destination(next));
    match message {
        Message::ReleaseAll => lemma_asked_is_logged(next, DestinationAction::ReleaseAll, answers),
        Message::Key(key) => {
            let noted = Run {
                state: ReceiverView {
                    keys: next.state.keys.update(key.usage.0 as int, key.is_down),
                    ..next.state
                },
                ..next
            };
            lemma_asked_is_logged(
                noted,
                DestinationAction::Key { usage: key.usage, pressed: key.is_down },
                answers,
            );
        },
        Message::Button(button) => lemma_asked_is_logged(
            next,
            DestinationAction::Button {
                button: button.button,
                pressed: button.is_down,
                click_count: button.click_count,
            },
            answers,
        ),
        Message::Scroll(scroll) => lemma_asked_is_logged(
            next,
            DestinationAction::Scroll {
                horizontal: scroll.horizontal,
                vertical: scroll.vertical,
            },
            answers,
        ),
        _ => {},
    }
}

proof fn lemma_admission_is_tracked(
    run: Run,
    frame: Frame,
    now: nat,
    admission: Admission,
    answers: ActionLog,
)
    requires
        run.state.failure is None,
        tracks_the_destination(run),
    ensures
        ({
            let (after, response) = run.admitted(frame, now, admission, answers);
            after.state.failure is None && (response is Ok ==> tracks_the_destination(after))
        }),
{
    lemma_dispatch_is_tracked(run, frame.message, now, admission, answers);
    if let Message::ActivateDisplayAt { display_id, position } = frame.message {
        let still = Run { state: ReceiverView { pending_move: None, ..run.state }, ..run };
        lemma_asked_is_logged(still, DestinationAction::MoveTo(position), answers);
    }
}

proof fn lemma_settled_is_tracked<T>(
    run: Run,
    result: Result<T, ReceiverFailure>,
    answers: ActionLog,
)
    requires
        result is Ok ==> knows_what_is_down(run),
    ensures
        knows_what_is_down(run.settled(result, answers).0),
{
    if let Err(failure) = result {
        lemma_stopped_is_tracked(run, failure, answers);
    }
}

/// At every moment the keys and buttons that the destination was left with are exactly those that
/// the receiver takes to be down: a press goes in as a press, a release as a release, each for its
/// own key or button, and a release of everything leaves none. Only a stopped receiver whose release
/// has not succeeded yet knows less.
pub proof fn law_the_receiver_knows_what_is_down(
    run: Run,
    frame: Frame,
    now: nat,
    admission: Admission,
    answers: ActionLog,
)
    requires
        knows_what_is_down(run),
    ensures
        knows_what_is_down(run.received(frame, now, admission, answers).0),
        knows_what_is_down(run.ticked(now, answers).0),
        knows_what_is_down(run.flushed(answers).0),
        knows_what_is_down(run.cleaned(answers)),
        forall|failure: ReceiverFailure|
            knows_what_is_down(#[trigger] run.stopped(failure, answers)),
{
    lemma_cleaned_is_tracked(run, answers);
    assert forall|failure: ReceiverFailure| knows_what_is_down(
        #[trigger] run.stopped(failure, answers),
    ) by {
        lemma_stopped_is_tracked(run, failure, answers);
    }
    if run.state.failure is None {
        lemma_received_is_tracked(run, frame, now, admission, answers);
        lemma_ticked_is_tracked(run, now, answers);
        if let Some(point) = run.state.pending_move {
            lemma_asked_is_logged(run, DestinationAction::MoveTo(point), answers);
        }
        let (moved, result) = run.moved(answers);
        lemma_settled_is_tracked(moved, result, answers);
    }
}

proof fn lemma_received_is_tracked(
    run: Run,
    frame: Frame,
    now: nat,
    admission: Admission,
    answers: ActionLog,
)
    requires
        run.state.failure is None,
        tracks_the_destination(run),
    ensures
        knows_what_is_down(run.received(frame, now, admission, answers).0),
{
    let (health, checked_result) = run.state.health.checked(now);
    let checked = Run { state: ReceiverView { health, ..run.state }, ..run };
    lemma_admission_is_tracked(run, frame, now, admission, answers);
    lemma_admission_is_tracked(checked, frame, now, admission, answers);
    lemma_held_is_tracked(checked, now, answers);
    let (held, held_result) = checked.held(now, answers);
    if held_result is Ok {
        lemma_admission_is_tracked(held, frame, now, admission, answers);
    }
    let (judged, result) = run.judged(frame, now, admission, answers);
    lemma_settled_is_tracked(judged, result, answers);
}

proof fn lemma_ticked_is_tracked(run: Run, now: nat, answers: ActionLog)
    requires
        run.state.failure is None,
        tracks_the_destination(run),
    ensures
        knows_what_is_down(run.ticked(now, answers).0),
{
    match run.state.held_since {
        Some(since) => {
            lemma_stopped_is_tracked(
                run,
                ReceiverFailure::Health(HealthError::DeadlineExpired),
                answers,
            );
            lemma_cleaned_is_tracked(run, answers);
            let cleaned = run.cleaned(answers);
            let (health, result) = cleaned.state.health.polled_while_held(now);
            let polled = Run { state: ReceiverView { health, ..cleaned.state }, ..cleaned };
            lemma_settled_is_tracked(polled, health_result(result), answers);
        },
        None => {
            let (health, result) = run.state.health.polled(now);
            let polled = Run { state: ReceiverView { health, ..run.state }, ..run };
            lemma_held_is_tracked(polled, now, answers);
            lemma_settled_is_tracked(polled, health_result(result), answers);
        },
    }
}

/// The receiver runs, does not hold, and its peer answered within the deadline.
pub open spec fn is_live(run: Run, now: nat) -> bool {
    &&& run.state.failure is None
    &&& run.state.held_since is None
    &&& run.state.health.failure is None
    &&& run.state.health.last_now <= now
    &&& now < run.state.health.last_response + PEER_LIVENESS
}

/// The frame is next in its stream, within the rate.
pub open spec fn is_next(run: Run, frame: Frame, admission: Admission) -> bool {
    &&& admission.within_rate
    &&& frame.epoch == run.state.epoch
    &&& admission.sequence == SequenceVerdict::Accepted
}

/// The pointer position that waits goes first.
pub open spec fn waiting_move(run: Run) -> ActionLog {
    match run.state.pending_move {
        Some(point) => seq![(DestinationAction::MoveTo(point), true)],
        None => Seq::empty(),
    }
}

/// Every further action succeeds.
pub open spec fn all_succeed(run: Run, answers: ActionLog) -> bool {
    forall|i: int| run.log.len() <= i ==> (#[trigger] answers[i]).1
}

/// Input of an active receiver is injected as it came: the position that waits first, and then one
/// action with the frame's own key, button or distances, pressed or released as the frame says.
pub proof fn law_accepted_input_is_injected_as_it_came(
    run: Run,
    frame: Frame,
    now: nat,
    admission: Admission,
    answers: ActionLog,
)
    requires
        is_live(run, now),
        is_next(run, frame, admission),
        frame.message is Key || frame.message is Button || frame.message is Scroll,
        run.received(frame, now, admission, answers).1 is Ok,
    ensures
        ({
            let (after, response) = run.received(frame, now, admission, answers);
            let sent = run.log + waiting_move(run);
            &&& response == Ok::<Option<Message>, ReceiverFailure>(None)
            &&& after.log.drop_last() == sent
            &&& after.log.last().1
            &&& after.state.pending_move is None
            &&& after.state.active == run.state.active
            &&& run.state.active is Some
            &&& match (frame.message, after.log.last().0) {
                (Message::Key(key), DestinationAction::Key { usage, pressed }) => usage == key.usage
                    && pressed == key.is_down && after.state.keys == run.state.keys.update(
                    key.usage.0 as int,
                    key.is_down,
                ) && after.state.buttons == run.state.buttons,
                (
                    Message::Button(sent),
                    DestinationAction::Button { button, pressed, click_count },
                ) => button == sent.button && pressed == sent.is_down && click_count
                    == sent.click_count && after.state.buttons == run.state.buttons.update(
                    sent.button.place(),
                    sent.is_down,
                ) && after.state.keys == run.state.keys,
                (Message::Scroll(sent), DestinationAction::Scroll { horizontal, vertical }) => {
                    horizontal == sent.horizontal && vertical == sent.vertical && after.state.keys
                        == run.state.keys && after.state.buttons == run.state.buttons
                },
                _ => false,
            }
        }),
{
    let after = run.received(frame, now, admission, answers).0;
    assert(after.log.drop_last() =~= run.log + waiting_move(run));
}

/// Input that agrees with what is down is never refused by a live active receiver: a press of what
/// is up, a repeat of a key that is down, a release of what is down, a scroll within a million
/// either way, and a motion onto the active display.
pub proof fn law_sound_input_is_accepted(
    run: Run,
    frame: Frame,
    now: nat,
    admission: Admission,
    answers: ActionLog,
)
    requires
        run.state.wf(),
        is_live(run, now),
        is_next(run, frame, admission),
        all_succeed(run, answers),
        run.state.active is Some,
        match frame.message {
            Message::Key(key) => key.usage_is_valid && key.usage.0 < 256 && (if key.is_down {
                key.repeat == run.state.keys[key.usage.0 as int]
            } else {
                run.state.keys[key.usage.0 as int] && !key.repeat
            }) && key.modifiers.0 == modifier_mask(
                run.state.keys.update(key.usage.0 as int, key.is_down),
                8,
            ),
            Message::Button(button) => run.state.buttons[button.button.place()] != button.is_down,
            Message::Scroll(scroll) => -MILLION_COORDINATE <= scroll.horizontal
                <= MILLION_COORDINATE && -MILLION_COORDINATE <= scroll.vertical
                <= MILLION_COORDINATE,
            Message::Motion(motion) => point_check(
                run.state.displays,
                (run.state.active->0).0,
                match motion {
                    Motion::Absolute(position) => position,
                    Motion::Relative(_) => admission.landing,
                },
            ) is Ok,
            _ => false,
        },
    ensures
        run.received(frame, now, admission, answers).1 == Ok::<Option<Message>, ReceiverFailure>(
            None,
        ),
{
}

/// Input that does not agree with what is down is refused, and so is input for no active display or
/// out of its bounds: nothing of it is injected.
pub proof fn law_unsound_input_is_refused(
    run: Run,
    frame: Frame,
    now: nat,
    admission: Admission,
    answers: ActionLog,
)
    requires
        run.state.wf(),
        is_live(run, now),
        is_next(run, frame, admission),
        all_succeed(run, answers),
        match frame.message {
            Message::Key(key) => run.state.active is None || !key.usage_is_valid || key.usage.0
                >= 256 || (key.is_down && key.repeat != run.state.keys[key.usage.0 as int]) || (
            !key.is_down && (key.repeat || !run.state.keys[key.usage.0 as int]))
                || key.modifiers.0 != modifier_mask(
                run.state.keys.update(key.usage.0 as int, key.is_down),
                8,
            ),
            Message::Button(button) => run.state.active is None
                || run.state.buttons[button.button.place()] == button.is_down,
            Message::Scroll(scroll) => run.state.active is None || scroll.horizontal
                < -MILLION_COORDINATE || scroll.horizontal > MILLION_COORDINATE || scroll.vertical
                < -MILLION_COORDINATE || scroll.vertical > MILLION_COORDINATE,
            Message::Motion(motion) => run.state.active is None || point_check(
                run.state.displays,
                (run.state.active->0).0,
                match motion {
                    Motion::Absolute(position) => position,
                    Motion::Relative(_) => admission.landing,
                },
            ) is Err,
            Message::Disconnect | Message::Error => true,
            _ => false,
        },
    ensures
        ({
            let (after, response) = run.received(frame, now, admission, answers);
            let moves = if frame.message is Motion {
                Seq::empty()
            } else {
                waiting_move(run)
            };
            &&& response matches Err(failure) && after.state.failure == Some(failure) && (
            match frame.message {
                Message::Disconnect | Message::Error => failure == ReceiverFailure::PeerStopped,
                _ => run.state.active is None ==> failure == ReceiverFailure::NotActive,
            })
            &&& after.log == run.log + moves + seq![(DestinationAction::ReleaseAll, true)]
            &&& after.state.keys == all_up(256)
            &&& after.state.buttons == all_up(5)
        }),
{
    let after = run.received(frame, now, admission, answers).0;
    let moves = if frame.message is Motion {
        Seq::empty()
    } else {
        waiting_move(run)
    };
    assert(after.log =~= run.log + moves + seq![(DestinationAction::ReleaseAll, true)]);
}

/// A motion injects nothing by itself. It waits as the active position, in place of one that waited
/// before, and a flush injects it once.
pub proof fn law_a_motion_waits_for_its_flush(
    run: Run,
    frame: Frame,
    now: nat,
    admission: Admission,
    answers: ActionLog,
    later: ActionLog,
)
    requires
        is_live(run, now),
        is_next(run, frame, admission),
        frame.message is Motion,
        run.received(frame, now, admission, answers).1 is Ok,
        all_succeed(run, later),
    ensures
        ({
            let (after, response) = run.received(frame, now, admission, answers);
            let target = match frame.message->Motion_0 {
                Motion::Absolute(position) => position,
                Motion::Relative(_) => admission.landing,
            };
            let (flushed, result) = after.flushed(later);
            &&& response == Ok::<Option<Message>, ReceiverFailure>(None)
            &&& after.log == run.log
            &&& after.state.pending_move == Some(target)
            &&& after.state.active == Some(((run.state.active->0).0, target))
            &&& after.state.keys == run.state.keys
            &&& after.state.buttons == run.state.buttons
            &&& result is Ok
            &&& flushed.log == run.log.push((DestinationAction::MoveTo(target), true))
            &&& flushed.state == (ReceiverView { pending_move: None, ..after.state })
            &&& flushed.flushed(later) == (flushed, Ok::<(), ReceiverFailure>(()))
        }),
{
}

/// An activation of a display of this computer in the next epoch moves the pointer there at once and
/// is acknowledged. What is down stays down, and no position waits any more.
pub proof fn law_an_activation_takes_effect(
    run: Run,
    frame: Frame,
    now: nat,
    admission: Admission,
    answers: ActionLog,
    display_id: DisplayId,
    position: Point,
)
    requires
        is_live(run, now),
        all_succeed(run, answers),
        frame.message == (Message::ActivateDisplayAt { display_id, position }),
        admission.within_rate,
        admission.epoch_opens,
        admission.sequence == SequenceVerdict::Accepted,
        frame.epoch.value == run.state.epoch.value + 1,
        point_check(run.state.displays, display_id, position) is Ok,
    ensures
        ({
            let (after, response) = run.received(frame, now, admission, answers);
            &&& response == Ok::<Option<Message>, ReceiverFailure>(
                Some(Message::ActivationAck(display_id)),
            )
            &&& after.log == run.log.push((DestinationAction::MoveTo(position), true))
            &&& after.state.active == Some((display_id, position))
            &&& after.state.epoch == frame.epoch
            &&& after.state.pending_move is None
            &&& after.state.keys == run.state.keys
            &&& after.state.buttons == run.state.buttons
        }),
{
}

/// A release of everything is applied, after the position that waits, and acknowledged; nothing is
/// down or active afterwards. In a hold it also ends the hold and restarts the deadline.
pub proof fn law_a_barrier_gives_everything_back(
    run: Run,
    frame: Frame,
    now: nat,
    admission: Admission,
    answers: ActionLog,
)
    requires
        run.state.failure is None,
        is_live(run, now) || run.state.held_since is Some && run.state.health.failure is None
            && run.state.health.last_now <= now,
        is_next(run, frame, admission),
        all_succeed(run, answers),
        frame.message == Message::ReleaseAll,
    ensures
        ({
            let (after, response) = run.received(frame, now, admission, answers);
            &&& response == Ok::<Option<Message>, ReceiverFailure>(Some(Message::ReleaseAck))
            &&& after.log == run.log + (if run.state.held_since is Some {
                Seq::empty()
            } else {
                waiting_move(run)
            }) + seq![(DestinationAction::ReleaseAll, true)]
            &&& after.state.active is None
            &&& after.state.keys == all_up(256)
            &&& after.state.buttons == all_up(5)
            &&& after.state.held_since is None
            &&& after.state.epoch == run.state.epoch
            &&& run.state.held_since is Some ==> !after.state.cleanup_pending
                && after.state.health.last_response == now
        }),
{
    let after = run.received(frame, now, admission, answers).0;
    assert(after.log =~= run.log + (if run.state.held_since is Some {
        Seq::empty()
    } else {
        waiting_move(run)
    }) + seq![(DestinationAction::ReleaseAll, true)]);
}

/// A fresh challenge is answered with its own token, and a stale one is dropped. Neither touches
/// anything else.
pub proof fn law_a_challenge_is_answered_with_its_token(
    run: Run,
    frame: Frame,
    now: nat,
    admission: Admission,
    answers: ActionLog,
    token: u64,
)
    requires
        is_live(run, now),
        admission.within_rate,
        frame.message == Message::Ping(token),
    ensures
        ({
            let (after, response) = run.received(frame, now, admission, answers);
            &&& response == Ok::<Option<Message>, ReceiverFailure>(
                if admission.heartbeat_is_fresh {
                    Some(Message::Pong(token))
                } else {
                    None
                },
            )
            &&& after.log == run.log
            &&& after.state == (ReceiverView { health: run.state.health.at(now), ..run.state })
        }),
{
}

/// A fresh reply to a challenge of this receiver moves the deadline to it; a stale one does nothing.
pub proof fn law_a_fresh_reply_is_credited(
    run: Run,
    frame: Frame,
    now: nat,
    admission: Admission,
    answers: ActionLog,
    token: u64,
)
    requires
        is_live(run, now),
        admission.within_rate,
        frame.message == Message::Pong(token),
        run.state.health.last_acked < token < run.state.health.next_token,
    ensures
        ({
            let (after, response) = run.received(frame, now, admission, answers);
            &&& response == Ok::<Option<Message>, ReceiverFailure>(None)
            &&& after.log == run.log
            &&& after.state.health.last_response == (if admission.heartbeat_is_fresh {
                now
            } else {
                run.state.health.last_response
            })
            &&& after.state.active == run.state.active
            &&& after.state.keys == run.state.keys
        }),
{
}

/// A late motion datagram is dropped: one of an earlier epoch, or one whose number has passed. The
/// same on the ordered stream, or anything from an epoch still to come, stops the receiver.
pub proof fn law_late_datagrams_are_dropped(
    run: Run,
    frame: Frame,
    now: nat,
    admission: Admission,
    answers: ActionLog,
)
    requires
        is_live(run, now),
        !frame.message.is_heartbeat_message(),
        !(frame.message is ActivateDisplayAt),
    ensures
        ({
            let (after, response) = run.received(frame, now, admission, answers);
            let late_epoch = frame.epoch.value < run.state.epoch.value;
            let late_number = frame.epoch == run.state.epoch && admission.sequence
                == SequenceVerdict::StaleOrReplay;
            let datagram = frame.delivery == DeliveryClass::MotionDatagram;
            &&& !admission.within_rate ==> response == Err::<Option<Message>, _>(
                ReceiverFailure::RateLimited,
            )
            &&& admission.within_rate && datagram && (late_epoch || late_number) ==> response
                == Ok::<Option<Message>, ReceiverFailure>(None) && after.log == run.log
                && after.state == (ReceiverView {
                health: run.state.health.at(now),
                ..run.state
            })
            &&& admission.within_rate && frame.epoch != run.state.epoch && !(datagram && late_epoch)
                ==> response == Err::<Option<Message>, _>(ReceiverFailure::InvalidEpoch)
            &&& admission.within_rate && frame.epoch == run.state.epoch && admission.sequence
                != SequenceVerdict::Accepted && !(datagram && late_number) ==> response == Err::<
                Option<Message>,
                _,
            >(ReceiverFailure::InvalidSequence)
        }),
{
}

/// A peer that is silent past the deadline is met with a hold: gestures end, everything is released,
/// nothing stays active, and one more hold is counted from that moment. The session goes on.
pub proof fn law_silence_holds(run: Run, now: nat, answers: ActionLog)
    requires
        run.state.wf(),
        run.state.failure is None,
        run.state.held_since is None,
        run.state.health.failure is None,
        run.state.health.last_now <= now,
        run.state.health.last_response + PEER_LIVENESS <= now,
        run.state.holds < u32::MAX,
        all_succeed(run, answers),
    ensures
        ({
            let (after, response) = run.ticked(now, answers);
            &&& response == Ok::<Option<nat>, ReceiverFailure>(None)
            &&& after.log == run.log + seq![
                (DestinationAction::EndGestures, true),
                (DestinationAction::ReleaseAll, true),
            ]
            &&& after.state.held_since == Some(now)
            &&& after.state.holds == run.state.holds + 1
            &&& after.state.active is None
            &&& after.state.pending_move is None
            &&& after.state.keys == all_up(256)
            &&& after.state.buttons == all_up(5)
            &&& after.state.epoch == run.state.epoch
            &&& after.state.failure is None
            &&& !after.state.cleanup_pending
        }),
{
    let after = run.ticked(now, answers).0;
    assert(after.log =~= run.log + seq![
        (DestinationAction::EndGestures, true),
        (DestinationAction::ReleaseAll, true),
    ]);
}

/// A tick of a live receiver injects nothing and asks the peer for a sign whenever one is due.
pub proof fn law_a_quiet_tick_only_challenges(run: Run, now: nat, answers: ActionLog)
    requires
        is_live(run, now),
        run.state.health.next_token < u64::MAX,
    ensures
        ({
            let (after, response) = run.ticked(now, answers);
            &&& after.log == run.log
            &&& after.state.active == run.state.active
            &&& after.state.pending_move == run.state.pending_move
            &&& after.state.keys == run.state.keys
            &&& after.state.buttons == run.state.buttons
            &&& after.state.held_since is None
            &&& response == Ok::<Option<nat>, ReceiverFailure>(
                if run.state.health.last_sent is None || now - run.state.health.last_sent->0
                    >= HEARTBEAT_INTERVAL {
                    Some(run.state.health.next_token)
                } else {
                    None
                },
            )
        }),
{
}

/// The mask of the modifiers names each of the eight modifier keys by its own bit.
pub proof fn law_modifiers_name_the_keys_that_are_down(keys: Seq<bool>, modifier: nat)
    requires
        modifier < 8,
    ensures
        modifier_mask(keys, 8) < 256,
        (modifier_mask(keys, 8) / vstd::arithmetic::power2::pow2(modifier)) % 2 == 1
            <==> keys[0xe0 + modifier as int],
{
    reveal_with_fuel(modifier_mask, 9);
    vstd::arithmetic::power2::lemma2_to64();
    let b0: int = bit(keys[0xe0]);
    let b1: int = bit(keys[0xe1]);
    let b2: int = bit(keys[0xe2]);
    let b3: int = bit(keys[0xe3]);
    let b4: int = bit(keys[0xe4]);
    let b5: int = bit(keys[0xe5]);
    let b6: int = bit(keys[0xe6]);
    let b7: int = bit(keys[0xe7]);
    let mask = modifier_mask(keys, 8) as int;
    assert(mask == b0 + 2 * b1 + 4 * b2 + 8 * b3 + 16 * b4 + 32 * b5 + 64 * b6 + 128 * b7);
    if modifier == 0 {
        assert(mask / 1 == b0 + 2 * b1 + 4 * b2 + 8 * b3 + 16 * b4 + 32 * b5 + 64 * b6 + 128 * b7);
    } else if modifier == 1 {
        assert(mask / 2 == b1 + 2 * b2 + 4 * b3 + 8 * b4 + 16 * b5 + 32 * b6 + 64 * b7);
    } else if modifier == 2 {
        assert(mask / 4 == b2 + 2 * b3 + 4 * b4 + 8 * b5 + 16 * b6 + 32 * b7);
    } else if modifier == 3 {
        assert(mask / 8 == b3 + 2 * b4 + 4 * b5 + 8 * b6 + 16 * b7);
    } else if modifier == 4 {
        assert(mask / 16 == b4 + 2 * b5 + 4 * b6 + 8 * b7);
    } else if modifier == 5 {
        assert(mask / 32 == b5 + 2 * b6 + 4 * b7);
    } else if modifier == 6 {
        assert(mask / 64 == b6 + 2 * b7);
    } else if modifier == 7 {
        assert(mask / 128 == b7);
    }
}

spec fn bit(is_set: bool) -> int {
    if is_set {
        1
    } else {
        0
    }
}

/// A point may be reached on a display exactly where a display with that id is there and the first
/// such display holds it.
pub proof fn law_which_points_are_on_a_display(
    displays: Seq<DisplayDescription>,
    id: DisplayId,
    point: Point,
    place: int,
)
    requires
        0 <= place < displays.len(),
        displays[place].id == id,
        forall|i: int| 0 <= i < place ==> (#[trigger] displays[i]).id != id,
    ensures
        point_check(displays, id, point) is Ok <==> {
            &&& displays[place].logical_origin.x <= point.x < displays[place].logical_end.x
            &&& displays[place].logical_origin.y <= point.y < displays[place].logical_end.y
            &&& crate::protocol::is_finite_coordinate(point.x)
            &&& crate::protocol::is_finite_coordinate(point.y)
        },
        point_check(displays, id, point) is Err ==> point_check(displays, id, point) == Err::<(), _>(
            ReceiverFailure::InvalidPoint,
        ),
    decreases displays.len(),
{
    if place > 0 {
        let rest = displays.drop_first();
        assert(rest[place - 1] == displays[place]);
        assert forall|i: int| 0 <= i < place - 1 implies (#[trigger] rest[i]).id != id by {
            assert(rest[i] == displays[i + 1]);
        }
        assert(displays[0].id != id);
        law_which_points_are_on_a_display(rest, id, point, place - 1);
    }
}

/// What is asked about a frame before it is received: nothing where it cannot be received any more,
/// the heartbeat's order for a heartbeat, the new epoch's order for a sound activation of the next
/// epoch, the epoch's order for any other frame of it, and otherwise only its rate.
pub proof fn law_what_is_asked_about_a_frame(state: ReceiverView, frame: Frame, now: nat)
    requires
        state.failure is None,
        state.held_since is Some || state.health.failure is None && state.health.last_now <= now,
    ensures
        ({
            let check = state.frame_check(frame, now);
            &&& frame.message is Ping || frame.message is Pong <==> check == FrameCheck::Heartbeat
            &&& check != FrameCheck::Closed
            &&& frame.message matches Message::ActivateDisplayAt { display_id, position } ==> (check
                == FrameCheck::Activation <==> frame.epoch.value == state.epoch.value + 1
                && point_check(state.displays, display_id, position) is Ok) && (check
                == FrameCheck::Activation || check == FrameCheck::Rate)
            &&& !(frame.message is Ping) && !(frame.message is Pong)
                && !(frame.message is ActivateDisplayAt) ==> check == (if frame.epoch
                == state.epoch {
                FrameCheck::Sequence
            } else {
                FrameCheck::Rate
            })
        }),
{
}

/// A receiver that stopped, or whose clock went back, asks nothing about a frame.
pub proof fn law_a_closed_receiver_asks_nothing(state: ReceiverView, frame: Frame, now: nat)
    ensures
        state.failure is Some ==> state.frame_check(frame, now) == FrameCheck::Closed,
        state.failure is None && state.held_since is None && state.health.failure is None && now
            < state.health.last_now ==> state.frame_check(frame, now) == FrameCheck::Closed,
{
}

/// While a receiver holds it follows the epochs: a sound activation opens its epoch, moves nothing,
/// and is not acknowledged. Input in order is passed over, and leaves everything as it was.
pub proof fn law_a_held_receiver_follows_the_epochs(
    run: Run,
    frame: Frame,
    now: nat,
    admission: Admission,
    answers: ActionLog,
)
    requires
        run.state.failure is None,
        run.state.held_since is Some,
        admission.within_rate,
        admission.epoch_opens,
        admission.sequence == SequenceVerdict::Accepted,
    ensures
        ({
            let (after, response) = run.received(frame, now, admission, answers);
            &&& frame.message matches Message::ActivateDisplayAt { display_id, position } ==>
                frame.epoch.value == run.state.epoch.value + 1 && point_check(
                run.state.displays,
                display_id,
                position,
            ) is Ok ==> response == Ok::<Option<Message>, ReceiverFailure>(None) && after == (Run {
                state: ReceiverView { epoch: frame.epoch, ..run.state },
                log: run.log,
            })
            &&& (frame.message is Key || frame.message is Button || frame.message is Scroll
                || frame.message is Motion) && frame.epoch == run.state.epoch ==> response == Ok::<
                Option<Message>,
                ReceiverFailure,
            >(None) && after == run
        }),
{
}

/// While a receiver holds, a tick before the limit tries the release again where it is still owed,
/// and challenges the peer as ever; everything else stays.
pub proof fn law_a_held_tick_keeps_challenging(
    run: Run,
    since: nat,
    now: nat,
    answers: ActionLog,
)
    requires
        run.state.wf(),
        run.state.failure is None,
        run.state.held_since == Some(since),
        run.state.health.failure is None,
        run.state.health.last_now <= now,
        run.state.health.next_token < u64::MAX,
        now < since + HOLD_LIMIT,
    ensures
        ({
            let (after, result) = run.ticked(now, answers);
            let due = run.state.health.last_sent is None || now - run.state.health.last_sent->0
                >= HEARTBEAT_INTERVAL;
            &&& result == Ok::<Option<nat>, ReceiverFailure>(
                if due {
                    Some(run.state.health.next_token)
                } else {
                    None
                },
            )
            &&& after.state.held_since == Some(since)
            &&& after.state.failure is None
            &&& after.log == (if run.state.cleanup_pending {
                run.log.push(
                    (DestinationAction::ReleaseAll, answers[run.log.len() as int].1),
                )
            } else {
                run.log
            })
            &&& after.state.cleanup_pending <==> run.state.cleanup_pending
                && !answers[run.log.len() as int].1
        }),
{
}

/// A receiver that stopped tries on each tick to release what it still owes, until it is done, and
/// says why it stopped.
pub proof fn law_a_stopped_receiver_keeps_releasing(
    run: Run,
    failure: ReceiverFailure,
    now: nat,
    answers: ActionLog,
)
    requires
        run.state.failure == Some(failure),
    ensures
        ({
            let (after, result) = run.ticked(now, answers);
            let released = answers[run.log.len() as int].1;
            &&& result == Err::<Option<nat>, _>(failure)
            &&& after.state.failure == Some(failure)
            &&& !run.state.cleanup_pending ==> after == run
            &&& run.state.cleanup_pending ==> after.log == run.log.push(
                (DestinationAction::ReleaseAll, released),
            ) && after.state.cleanup_pending == !released
            &&& run.state.cleanup_pending && released ==> after.state.keys == all_up(256)
                && after.state.buttons == all_up(5)
        }),
{
}

/// A peer that says goodbye or reports an error stops the receiver, which gives its control back.
pub proof fn law_a_goodbye_stops_the_receiver(
    run: Run,
    frame: Frame,
    now: nat,
    admission: Admission,
    answers: ActionLog,
)
    requires
        is_live(run, now),
        is_next(run, frame, admission),
        all_succeed(run, answers),
        frame.message is Disconnect || frame.message is Error,
    ensures
        ({
            let (after, response) = run.received(frame, now, admission, answers);
            &&& response == Err::<Option<Message>, _>(ReceiverFailure::PeerStopped)
            &&& after.state.failure == Some(ReceiverFailure::PeerStopped)
            &&& after.state.active is None
            &&& after.log.last() == (DestinationAction::ReleaseAll, true)
            &&& !after.state.cleanup_pending
        }),
{
}

/// A fresh receiver knows its displays and its epoch, holds nothing down, moves nothing, and counts
/// its deadline from its beginning.
pub proof fn law_a_fresh_receiver_holds_nothing(
    displays: Seq<DisplayDescription>,
    epoch: SessionEpoch,
    now: nat,
)
    ensures
        ({
            let state = fresh_receiver(displays, epoch, now);
            &&& state.wf()
            &&& state.displays == displays
            &&& state.epoch == epoch && state.control_epoch == epoch
            &&& state.failure is None && state.active is None && state.pending_move is None
            &&& state.held_since is None && !state.cleanup_pending
            &&& forall|key: int| 0 <= key < 256 ==> !(#[trigger] state.keys[key])
            &&& forall|button: int| 0 <= button < 5 ==> !(#[trigger] state.buttons[button])
            &&& is_live(Run { state, log: Seq::empty() }, now)
            &&& state.health.challenge_due(now)
        }),
{
}

} // verus!
