//! A destination watchdog whose progress never depends on the network writer.
//!
//! The worker's decisions stand here: what each answer of the clock, the queues and the
//! destination leads to. The thread that runs them performs one [`LoopAction`] after another and
//! hands the outcome back.

use crate::protocol::{DeliveryClass, DisplayId, Frame, FrameScope, Message, SessionEpoch};
use crate::session_clock::{micros_u64, millis_u64};
use crate::session_health::{longest_hold, HealthError};
use crate::session_receiver::{
    ping_result, run_of, Admission, DestinationFailure, InputDestination, InputReceiver,
    ReceiverFailure, ReceiverView, Response,
};
use crate::time::{clamp_u64, span, Duration};
use vstd::prelude::*;

verus! {

/// How many frames either queue of a session holds.
pub const SESSION_QUEUE_CAPACITY: usize = 512;

/// How often the destination's surroundings are checked.
pub const DISPLAY_CHECK_INTERVAL: Duration = 30_000_000;

/// How long an idle worker sleeps.
pub const TICK: Duration = 5_000_000;

/// A batch whose injection took longer than this many microseconds is slow.
pub const SLOW_APPLY_MICROS: u64 = 2_000;

/// The code of the rule that stopped a receiver, which a report can name without naming input.
pub open spec fn failure_code(failure: ReceiverFailure) -> u8 {
    match failure {
        ReceiverFailure::Health(HealthError::ClockRegression) => 20,
        ReceiverFailure::Health(HealthError::DeadlineExpired) => 21,
        ReceiverFailure::Health(HealthError::UnexpectedResponse) => 22,
        ReceiverFailure::Health(HealthError::TokenExhausted) => 23,
        ReceiverFailure::InvalidEpoch => 24,
        ReceiverFailure::InvalidSequence => 25,
        ReceiverFailure::RateLimited => 26,
        ReceiverFailure::WrongDisplay => 27,
        ReceiverFailure::InvalidPoint => 28,
        ReceiverFailure::NotActive => 29,
        ReceiverFailure::InvalidPressedState => 30,
        ReceiverFailure::UnexpectedMessage => 31,
        ReceiverFailure::NativeDelivery => 32,
        ReceiverFailure::PeerStopped => 33,
        ReceiverFailure::InvalidGesture => 34,
    }
}

pub fn receiver_failure_code(failure: ReceiverFailure) -> (code: u8)
    ensures
        code == failure_code(failure),
{
    match failure {
        ReceiverFailure::Health(HealthError::ClockRegression) => 20,
        ReceiverFailure::Health(HealthError::DeadlineExpired) => 21,
        ReceiverFailure::Health(HealthError::UnexpectedResponse) => 22,
        ReceiverFailure::Health(HealthError::TokenExhausted) => 23,
        ReceiverFailure::InvalidEpoch => 24,
        ReceiverFailure::InvalidSequence => 25,
        ReceiverFailure::RateLimited => 26,
        ReceiverFailure::WrongDisplay => 27,
        ReceiverFailure::InvalidPoint => 28,
        ReceiverFailure::NotActive => 29,
        ReceiverFailure::InvalidPressedState => 30,
        ReceiverFailure::UnexpectedMessage => 31,
        ReceiverFailure::NativeDelivery => 32,
        ReceiverFailure::PeerStopped => 33,
        ReceiverFailure::InvalidGesture => 34,
    }
}

/// The code of the rule that last stopped a receiver, zero while none did.
pub fn last_receiver_failure(noted: Option<ReceiverFailure>) -> (code: u8)
    ensures
        code == (match noted {
            Some(failure) => failure_code(failure),
            None => 0u8,
        }),
{
    match noted {
        Some(failure) => receiver_failure_code(failure),
        None => 0,
    }
}

/// Two rules never share a code, and no rule shares the code of none.
pub proof fn law_failure_codes_name_one_rule(a: ReceiverFailure, b: ReceiverFailure)
    ensures
        failure_code(a) == failure_code(b) ==> a == b,
        20 <= failure_code(a) <= 34,
{
}

#[derive(Clone, Copy, Debug, PartialEq, Eq, Structural)]
pub enum ActorFailure {
    Requested,
    Revoked,
    QueueFull,
    PeerGone,
    Receiver,
    Native,
    SequenceExhausted,
    Panicked,
    Startup,
    LocalDisplaysChanged,
}

/// Receiver-side load counters for the session end report; never input content.
#[derive(Clone, Copy, Debug, PartialEq, Eq)]
pub struct ReceiverStats {
    pub frames: u64,
    pub batch_max: u64,
    /// Batches of 1, 2-3, 4-8 and 9+ frames; a smooth link keeps almost everything in the first.
    pub batch_buckets: [u64; 4],
    /// Batches whose injection took longer than 2 ms.
    pub slow_applies: u64,
    pub apply_max_micros: u64,
    pub env_max_micros: u64,
    pub reply_age_millis: u64,
    pub ping_age_millis: Option<u64>,
    /// How long before the receiver stopped the last frame of any kind arrived.
    pub frame_age_millis: Option<u64>,
    /// The longest silence between two frames while the session ran.
    pub gap_max_millis: u64,
    /// How often the source went silent past the deadline and the session held instead of ending.
    pub holds: u64,
    pub held_max_millis: u64,
}

impl Default for ReceiverStats {
    fn default() -> (stats: ReceiverStats)
        ensures
            stats == no_stats(),
    {
        ReceiverStats {
            frames: 0,
            batch_max: 0,
            batch_buckets: [0u64, 0u64, 0u64, 0u64],
            slow_applies: 0,
            apply_max_micros: 0,
            env_max_micros: 0,
            reply_age_millis: 0,
            ping_age_millis: None,
            frame_age_millis: None,
            gap_max_millis: 0,
            holds: 0,
            held_max_millis: 0,
        }
    }
}

/// Nothing counted yet.
pub open spec fn no_stats() -> ReceiverStats {
    ReceiverStats {
        frames: 0,
        batch_max: 0,
        batch_buckets: [0u64, 0u64, 0u64, 0u64],
        slow_applies: 0,
        apply_max_micros: 0,
        env_max_micros: 0,
        reply_age_millis: 0,
        ping_age_millis: None,
        frame_age_millis: None,
        gap_max_millis: 0,
        holds: 0,
        held_max_millis: 0,
    }
}

/// The larger of two counts.
pub open spec fn greater(a: u64, b: u64) -> u64 {
    if a >= b {
        a
    } else {
        b
    }
}

fn max_u64(a: u64, b: u64) -> (result: u64)
    ensures
        result == greater(a, b),
{
    if a >= b {
        a
    } else {
        b
    }
}

/// A span in milliseconds as a counter holds it.
pub open spec fn as_millis(length: nat) -> u64 {
    clamp_u64(length / 1_000_000) as u64
}

/// Which of the four counters a batch of this size belongs to.
pub open spec fn bucket(batch: u64) -> int {
    if batch <= 1 {
        0
    } else if batch <= 3 {
        1
    } else if batch <= 8 {
        2
    } else {
        3
    }
}

/// What a worker and its owner share.
pub struct Status {
    pub stopped: Option<ActorFailure>,
    pub last_receiver_failure: Option<ReceiverFailure>,
    pub cleanup_pending: bool,
    pub native_ready: bool,
    pub started: bool,
    pub handoff_sent: bool,
    pub active: Option<DisplayId>,
    pub held: bool,
    pub stats: ReceiverStats,
}

/// How a frame or a handoff fared at a queue.
#[derive(Clone, Copy, Debug, PartialEq, Eq, Structural)]
pub enum Queued {
    Sent,
    Full,
    Disconnected,
}

/// What a receiver reports when a rule stops it.
#[derive(Clone, Copy, Debug, PartialEq, Eq, Structural)]
pub struct StopReport {
    pub failure: ReceiverFailure,
    pub reply_age: Duration,
    pub ping_age: Option<Duration>,
}

/// A receiver's holds at one moment.
#[derive(Clone, Copy, Debug, PartialEq, Eq, Structural)]
pub struct HoldReport {
    pub holds: u32,
    pub held_max: Duration,
    pub is_held: bool,
}

/// The report that a receiver gives about `failure` at `now`.
pub open spec fn is_stop_report(
    report: StopReport,
    receiver: ReceiverView,
    failure: ReceiverFailure,
    now: nat,
) -> bool {
    let is_waiting = receiver.health.last_acked + 1 < receiver.health.next_token;
    &&& report.failure == failure
    &&& report.reply_age == span(now, receiver.health.last_response)
    &&& match report.ping_age {
        Some(age) => is_waiting && (receiver.health.last_sent matches Some(sent) && age == span(
            now,
            sent,
        )),
        None => !is_waiting || receiver.health.last_sent is None,
    }
}

/// The holds of a receiver at `now`.
pub open spec fn is_hold_report(report: HoldReport, receiver: ReceiverView, now: nat) -> bool {
    &&& report.holds == receiver.holds
    &&& report.held_max == longest_hold(receiver.held_max, receiver.held_since, now)
    &&& report.is_held == (receiver.held_since is Some)
}

/// What `receiver` reports about `failure`.
pub fn stop_report(receiver: &InputReceiver, failure: ReceiverFailure, now: Duration) -> (report:
    StopReport)
    requires
        receiver@.wf(),
    ensures
        is_stop_report(report, receiver@, failure, now as nat),
{
    let (reply_age, ping_age) = receiver.reply_ages(now);
    StopReport { failure, reply_age, ping_age }
}

/// The holds of `receiver` at `now`.
pub fn hold_report(receiver: &InputReceiver, now: Duration) -> (report: HoldReport)
    ensures
        is_hold_report(report, receiver@, now as nat),
{
    let (holds, held_max) = receiver.hold_stats(now);
    HoldReport { holds, held_max, is_held: receiver.held_since().is_some() }
}

/// What one step of a receiver came to.
#[derive(Clone, Debug, PartialEq, Eq)]
pub struct StepReport {
    /// What the source is told.
    pub answer: Option<Message>,
    /// The rule that stopped the receiver, if one did.
    pub stopped: Option<StopReport>,
    pub active: Option<DisplayId>,
    pub holds: HoldReport,
}

impl StepReport {
    /// A step with this response left the receiver so.
    pub open spec fn tells(self, response: Response, receiver: ReceiverView, now: nat) -> bool {
        &&& match response {
            Ok(answer) => self.answer == answer && self.stopped is None,
            Err(failure) => self.answer is None && (self.stopped matches Some(report)
                && is_stop_report(report, receiver, failure, now)),
        }
        &&& self.active == (match (receiver.failure, receiver.active) {
            (None, Some((display, _))) => Some(display),
            _ => None,
        })
        &&& is_hold_report(self.holds, receiver, now)
    }
}

/// What a step with this response came to.
pub fn step_report(receiver: &InputReceiver, response: Response, now: Duration) -> (report:
    StepReport)
    requires
        receiver@.wf(),
    ensures
        report.tells(response, receiver@, now as nat),
{
    let holds = hold_report(receiver, now);
    let active = receiver.active_display();
    match response {
        Ok(answer) => StepReport { answer, stopped: None, active, holds },
        Err(failure) => StepReport {
            answer: None,
            stopped: Some(stop_report(receiver, failure, now)),
            active,
            holds,
        },
    }
}

/// Microseconds from `start` to `now` as a counter holds them.
pub fn micros_since(now: Duration, start: Duration) -> (micros: u64)
    ensures
        micros == clamp_u64(span(now as nat, start as nat) / 1_000),
{
    micros_u64(now.saturating_sub(start))
}

impl Status {
    /// The first reason stays.
    pub open spec fn stopping(self, reason: ActorFailure) -> Status {
        Status {
            stopped: match self.stopped {
                Some(first) => Some(first),
                None => Some(reason),
            },
            ..self
        }
    }

    /// A rule stopped the receiver: the ages behind it are recorded with it.
    pub open spec fn receiver_stopped(
        self,
        report: StopReport,
        now: nat,
        last_frame_at: Option<Duration>,
    ) -> Status {
        Status {
            last_receiver_failure: Some(report.failure),
            stats: ReceiverStats {
                reply_age_millis: as_millis(report.reply_age as nat),
                ping_age_millis: match report.ping_age {
                    Some(age) => known_age(as_millis(age as nat)),
                    None => None,
                },
                frame_age_millis: match last_frame_at {
                    Some(at) => known_age(as_millis(span(now, at as nat))),
                    None => None,
                },
                ..self.stats
            },
            ..self
        }.stopping(ActorFailure::Receiver)
    }

    /// The holds as they stand now.
    pub open spec fn holding(self, report: HoldReport) -> Status {
        Status {
            held: report.is_held,
            stats: ReceiverStats {
                holds: report.holds as u64,
                held_max_millis: as_millis(report.held_max as nat),
                ..self.stats
            },
            ..self
        }
    }

    pub fn new() -> (status: Status)
        ensures
            status == (Status {
                stopped: None,
                last_receiver_failure: None,
                cleanup_pending: false,
                native_ready: false,
                started: false,
                handoff_sent: false,
                active: None,
                held: false,
                stats: no_stats(),
            }),
    {
        Status {
            stopped: None,
            last_receiver_failure: None,
            cleanup_pending: false,
            native_ready: false,
            started: false,
            handoff_sent: false,
            active: None,
            held: false,
            stats: ReceiverStats::default(),
        }
    }

    pub fn stop(&mut self, reason: ActorFailure)
        ensures
            *final(self) == old(self).stopping(reason),
    {
        if self.stopped.is_none() {
            self.stopped = Some(reason);
        }
    }

    pub fn failure(&self) -> (failure: Option<ActorFailure>)
        ensures
            failure == self.stopped,
    {
        self.stopped
    }

    pub fn note_receiver_failure(&mut self, failure: ReceiverFailure) -> (reason: ActorFailure)
        ensures
            *final(self) == (Status { last_receiver_failure: Some(failure), ..*old(self) }),
            reason == ActorFailure::Receiver,
    {
        self.last_receiver_failure = Some(failure);
        ActorFailure::Receiver
    }

    fn stop_receiver(&mut self, report: StopReport, now: Duration, last_frame_at: Option<Duration>)
        ensures
            *final(self) == old(self).receiver_stopped(report, now as nat, last_frame_at),
    {
        self.stats.reply_age_millis = millis_u64(report.reply_age);
        self.stats.ping_age_millis = match report.ping_age {
            Some(age) => recorded_age(millis_u64(age)),
            None => None,
        };
        self.stats.frame_age_millis = match last_frame_at {
            Some(at) => recorded_age(millis_u64(now.saturating_sub(at))),
            None => None,
        };
        let reason = self.note_receiver_failure(report.failure);
        self.stop(reason);
    }

    fn note_hold(&mut self, report: HoldReport)
        ensures
            *final(self) == old(self).holding(report),
    {
        self.stats.holds = report.holds as u64;
        self.stats.held_max_millis = millis_u64(report.held_max);
        self.held = report.is_held;
    }
}

/// An age that a counter can tell from the absence of one.
pub open spec fn known_age(millis: u64) -> Option<u64> {
    if millis == u64::MAX {
        None
    } else {
        Some(millis)
    }
}

fn recorded_age(millis: u64) -> (age: Option<u64>)
    ensures
        age == known_age(millis),
{
    if millis == u64::MAX {
        None
    } else {
        Some(millis)
    }
}

/// Destinations whose surroundings can change under them.
pub trait WatchedDestination: InputDestination {
    fn validate_environment(&mut self) -> Result<(), DestinationFailure>;

    fn local_displays_changed(&self) -> bool {
        false
    }
}

/// Why a destination whose surroundings failed must stop.
pub open spec fn environment_reason(displays_changed: bool) -> ActorFailure {
    if displays_changed {
        ActorFailure::LocalDisplaysChanged
    } else {
        ActorFailure::Native
    }
}

/// The operating-system thread behind an actor, as its owner sees it.
#[derive(Clone, Copy, Debug, PartialEq, Eq, Structural)]
pub enum Worker {
    Running,
    Ended,
    Joined,
}

/// What a worker does next on its way to the receive loop.
#[derive(Clone, Copy, Debug, PartialEq, Eq, Structural)]
pub enum StartupAction {
    /// Call the native factory.
    Construct,
    /// Validate the destination's surroundings before it is announced as ready.
    Validate,
    /// Wait for the startup handoff for at most one tick.
    AwaitHandoff,
    /// Validate the surroundings once more before the receiver exists.
    Revalidate,
    /// Build the receiver from the handoff.
    BuildReceiver,
    /// Enter the receive loop.
    Run,
    /// Leave: nothing native was made.
    Return,
    /// Release everything, retrying until it succeeds, then leave.
    CleanUp,
    /// Stop the receiver, then release as above.
    StopReceiver,
}

#[derive(Clone, Copy, Debug, PartialEq, Eq, Structural)]
pub enum Constructed {
    Built,
    Failed,
    Panicked,
}

#[derive(Clone, Copy, Debug, PartialEq, Eq, Structural)]
pub enum Handoff {
    Received,
    Timeout,
    Disconnected,
}

impl Status {
    /// Stopped by anyone, or about to be.
    pub open spec fn ends(self, stopping: bool) -> bool {
        stopping || self.stopped is Some
    }

    /// Whether the native factory may run at all.
    pub fn before_construction(&mut self, stopping: bool) -> (action: StartupAction)
        ensures
            match old(self).stopped {
                Some(_) => *final(self) == *old(self) && action == StartupAction::Return,
                None => if stopping {
                    *final(self) == old(self).stopping(ActorFailure::Revoked) && action
                        == StartupAction::Return
                } else {
                    *final(self) == *old(self) && action == StartupAction::Construct
                },
            },
    {
        if self.failure().is_some() {
            return StartupAction::Return;
        }
        if stopping {
            self.stop(ActorFailure::Revoked);
            return StartupAction::Return;
        }
        StartupAction::Construct
    }

    pub fn constructed(&mut self, outcome: Constructed, stopping: bool) -> (action: StartupAction)
        ensures
            match outcome {
                Constructed::Failed => *final(self) == old(self).stopping(ActorFailure::Native)
                    && action == StartupAction::Return,
                Constructed::Panicked => *final(self) == old(self).stopping(ActorFailure::Panicked)
                    && action == StartupAction::Return,
                Constructed::Built => if old(self).ends(stopping) {
                    *final(self) == old(self).stopping(ActorFailure::Revoked) && action
                        == StartupAction::CleanUp
                } else {
                    *final(self) == *old(self) && action == StartupAction::Validate
                },
            },
    {
        match outcome {
            Constructed::Failed => {
                self.stop(ActorFailure::Native);
                StartupAction::Return
            },
            Constructed::Panicked => {
                self.stop(ActorFailure::Panicked);
                StartupAction::Return
            },
            Constructed::Built => if self.revoked(stopping) {
                StartupAction::CleanUp
            } else {
                StartupAction::Validate
            },
        }
    }

    /// The surroundings were checked before the destination is announced as ready.
    pub fn validated(&mut self, passed: bool, displays_changed: bool) -> (action: StartupAction)
        ensures
            if passed {
                *final(self) == (Status { native_ready: true, ..*old(self) }) && action
                    == StartupAction::AwaitHandoff
            } else {
                *final(self) == old(self).stopping(environment_reason(displays_changed)) && action
                    == StartupAction::CleanUp
            },
    {
        if self.surroundings_failed(passed, displays_changed) {
            return StartupAction::CleanUp;
        }
        self.native_ready = true;
        StartupAction::AwaitHandoff
    }

    /// Whether the worker still waits for its handoff.
    pub fn awaiting(&mut self, stopping: bool) -> (action: StartupAction)
        ensures
            if stopping {
                *final(self) == old(self).stopping(ActorFailure::Revoked)
            } else {
                *final(self) == *old(self)
            },
            action == (if old(self).ends(stopping) {
                StartupAction::CleanUp
            } else {
                StartupAction::AwaitHandoff
            }),
    {
        if stopping {
            self.stop(ActorFailure::Revoked);
        }
        if self.failure().is_some() {
            StartupAction::CleanUp
        } else {
            StartupAction::AwaitHandoff
        }
    }

    pub fn handoff(&mut self, outcome: Handoff, stopping: bool) -> (action: StartupAction)
        ensures
            match outcome {
                Handoff::Timeout => *final(self) == *old(self) && action
                    == StartupAction::AwaitHandoff,
                Handoff::Disconnected => *final(self) == old(self).stopping(ActorFailure::PeerGone)
                    && action == StartupAction::AwaitHandoff,
                Handoff::Received => if old(self).ends(stopping) {
                    *final(self) == old(self).stopping(ActorFailure::Revoked) && action
                        == StartupAction::CleanUp
                } else {
                    *final(self) == *old(self) && action == StartupAction::Revalidate
                },
            },
    {
        match outcome {
            Handoff::Timeout => StartupAction::AwaitHandoff,
            Handoff::Disconnected => {
                self.stop(ActorFailure::PeerGone);
                StartupAction::AwaitHandoff
            },
            Handoff::Received => if self.revoked(stopping) {
                StartupAction::CleanUp
            } else {
                StartupAction::Revalidate
            },
        }
    }

    /// The surroundings were checked once more before the receiver exists.
    pub fn revalidated(&mut self, passed: bool, displays_changed: bool) -> (action: StartupAction)
        ensures
            if passed {
                *final(self) == *old(self) && action == StartupAction::BuildReceiver
            } else {
                *final(self) == old(self).stopping(environment_reason(displays_changed)) && action
                    == StartupAction::CleanUp
            },
    {
        if self.surroundings_failed(passed, displays_changed) {
            return StartupAction::CleanUp;
        }
        StartupAction::BuildReceiver
    }

    /// The receiver was built from the handoff, or a rule kept it from being built.
    pub fn receiver_built(&mut self, failure: Option<ReceiverFailure>, stopping: bool) -> (action:
        StartupAction)
        ensures
            match failure {
                Some(rule) => *final(self) == (Status {
                    last_receiver_failure: Some(rule),
                    ..*old(self)
                }).stopping(ActorFailure::Receiver) && action == StartupAction::CleanUp,
                None => if old(self).ends(stopping) {
                    *final(self) == old(self).stopping(ActorFailure::Revoked) && action
                        == StartupAction::StopReceiver
                } else {
                    *final(self) == (Status { started: true, ..*old(self) }) && action
                        == StartupAction::Run
                },
            },
    {
        if let Some(rule) = failure {
            let reason = self.note_receiver_failure(rule);
            self.stop(reason);
            return StartupAction::CleanUp;
        }
        if self.revoked(stopping) {
            return StartupAction::StopReceiver;
        }
        self.started = true;
        StartupAction::Run
    }

    fn revoked(&mut self, stopping: bool) -> (ended: bool)
        ensures
            ended == old(self).ends(stopping),
            *final(self) == (if ended {
                old(self).stopping(ActorFailure::Revoked)
            } else {
                *old(self)
            }),
    {
        if stopping || self.failure().is_some() {
            self.stop(ActorFailure::Revoked);
            true
        } else {
            false
        }
    }

    fn surroundings_failed(&mut self, passed: bool, displays_changed: bool) -> (failed: bool)
        ensures
            failed == !passed,
            *final(self) == (if passed {
                *old(self)
            } else {
                old(self).stopping(environment_reason(displays_changed))
            }),
    {
        if passed {
            return false;
        }
        if displays_changed {
            self.stop(ActorFailure::LocalDisplaysChanged);
        } else {
            self.stop(ActorFailure::Native);
        }
        true
    }

    /// Shows where a received frame left the receiver, before anything it answered is sent on.
    pub fn show(&mut self, active: Option<DisplayId>, holds: HoldReport)
        ensures
            *final(self) == (Status { active, ..*old(self) }).holding(holds),
    {
        self.active = active;
        self.note_hold(holds);
    }

    /// A release of everything began, or succeeded.
    pub fn cleaning(&mut self, pending: bool)
        ensures
            *final(self) == (Status { cleanup_pending: pending, ..*old(self) }),
    {
        self.cleanup_pending = pending;
    }
}

/// How long a failed release waits for its next try: 25 ms.
pub const CLEANUP_RETRY: Duration = 25_000_000;

/// What a worker that gives everything back does next.
#[derive(Clone, Copy, Debug, PartialEq, Eq, Structural)]
pub enum CleanupStep {
    Release,
    /// Try again after [`CLEANUP_RETRY`].
    WaitThenRelease,
    /// Everything was given back, so a drop need not try again.
    Done,
}

/// The next step of a cleanup, whose last try `failed` or not. It stays pending, and goes on
/// trying, until a release succeeds.
pub fn cleanup_step(status: &mut Status, failed: Option<bool>) -> (step: CleanupStep)
    ensures
        step == (match failed {
            None => CleanupStep::Release,
            Some(true) => CleanupStep::WaitThenRelease,
            Some(false) => CleanupStep::Done,
        }),
        *final(status) == (Status { cleanup_pending: failed != Some(false), ..*old(status) }),
{
    match failed {
        None => {
            status.cleaning(true);
            CleanupStep::Release
        },
        Some(true) => {
            status.cleaning(true);
            CleanupStep::WaitThenRelease
        },
        Some(false) => {
            status.cleaning(false);
            CleanupStep::Done
        },
    }
}

/// The owner's side of a destination worker. `worker` tells how its thread stands at each call.
pub struct DestinationActor {
    pub status: Status,
}

impl DestinationActor {
    /// A thread that ended without a reason panicked.
    pub open spec fn observed(self, worker: Worker) -> Status {
        if worker == Worker::Ended && self.status.stopped is None {
            self.status.stopping(ActorFailure::Panicked)
        } else {
            self.status
        }
    }

    /// Whether an actor may start its worker.
    pub fn start_after_local_enable(stopping: bool) -> (actor: Result<
        DestinationActor,
        ActorFailure,
    >)
        ensures
            stopping ==> actor == Err::<DestinationActor, _>(ActorFailure::Revoked),
            !stopping ==> (actor matches Ok(made) && made.status.stopped is None
                && !made.status.native_ready && !made.status.started && !made.status.handoff_sent
                && !made.status.cleanup_pending && !made.status.held && made.status.active is None
                && made.status.stats == no_stats() && made.status.last_receiver_failure is None),
    {
        if stopping {
            return Err(ActorFailure::Revoked);
        }
        Ok(DestinationActor { status: Status::new() })
    }

    pub fn failure(&mut self, worker: Worker) -> (failure: Option<ActorFailure>)
        ensures
            final(self).status == old(self).observed(worker),
            failure == final(self).status.stopped,
    {
        if worker == Worker::Ended && self.status.failure().is_none() {
            self.status.stop(ActorFailure::Panicked);
        }
        self.status.failure()
    }

    pub fn is_native_ready(&mut self, worker: Worker) -> (ready: bool)
        ensures
            final(self).status == (if old(self).status.native_ready {
                old(self).observed(worker)
            } else {
                old(self).status
            }),
            ready == (old(self).status.native_ready && old(self).observed(worker).stopped is None),
    {
        self.status.native_ready && self.failure(worker).is_none()
    }

    /// Whether the startup handoff may be sent now; it is sent at most once.
    pub fn handoff_ready(&mut self, worker: Worker) -> (result: Result<(), ActorFailure>)
        ensures
            ({
                let seen = old(self).observed(worker);
                match seen.stopped {
                    Some(failure) => final(self).status == seen && result == Err::<(), _>(failure),
                    None => if seen.native_ready && !seen.started && !seen.handoff_sent {
                        final(self).status == (Status { handoff_sent: true, ..seen }) && result
                            == Ok::<(), ActorFailure>(())
                    } else {
                        final(self).status == seen.stopping(ActorFailure::Startup) && result
                            == Err::<(), _>(ActorFailure::Startup)
                    },
                }
            }),
    {
        if let Some(failure) = self.failure(worker) {
            return Err(failure);
        }
        if !self.status.native_ready || self.status.started || self.status.handoff_sent {
            self.status.stop(ActorFailure::Startup);
            return Err(ActorFailure::Startup);
        }
        self.status.handoff_sent = true;
        Ok(())
    }

    /// How the handoff fared at its queue of one.
    pub fn handoff_queued(&mut self, outcome: Queued) -> (result: Result<(), ActorFailure>)
        ensures
            match outcome {
                Queued::Sent => final(self).status == old(self).status && result == Ok::<
                    (),
                    ActorFailure,
                >(()),
                Queued::Full => final(self).status == old(self).status.stopping(
                    ActorFailure::Startup,
                ) && result == Err::<(), _>(ActorFailure::Startup),
                Queued::Disconnected => final(self).status == old(self).status.stopping(
                    ActorFailure::PeerGone,
                ) && result == Err::<(), _>(ActorFailure::PeerGone),
            },
    {
        let failure = match outcome {
            Queued::Sent => return Ok(()),
            Queued::Full => ActorFailure::Startup,
            Queued::Disconnected => ActorFailure::PeerGone,
        };
        self.status.stop(failure);
        Err(failure)
    }

    pub fn is_started(&mut self, worker: Worker) -> (started: bool)
        ensures
            final(self).status == (if old(self).status.started {
                old(self).observed(worker)
            } else {
                old(self).status
            }),
            started == (old(self).status.started && old(self).observed(worker).stopped is None),
    {
        self.status.started && self.failure(worker).is_none()
    }

    /// Whether a frame may be queued for the worker: not before the handoff.
    pub fn try_submit(&mut self, worker: Worker) -> (result: Result<(), ActorFailure>)
        ensures
            ({
                let seen = old(self).observed(worker);
                match seen.stopped {
                    Some(failure) => final(self).status == seen && result == Err::<(), _>(failure),
                    None => if seen.handoff_sent {
                        final(self).status == seen && result == Ok::<(), ActorFailure>(())
                    } else {
                        final(self).status == seen.stopping(ActorFailure::Startup) && result
                            == Err::<(), _>(ActorFailure::Startup)
                    },
                }
            }),
    {
        if let Some(failure) = self.failure(worker) {
            return Err(failure);
        }
        if !self.status.handoff_sent {
            self.status.stop(ActorFailure::Startup);
            return Err(ActorFailure::Startup);
        }
        Ok(())
    }

    /// How a submitted frame fared at the worker's queue.
    pub fn submitted(&mut self, outcome: Queued) -> (result: Result<(), ActorFailure>)
        ensures
            match outcome {
                Queued::Sent => final(self).status == old(self).status && result == Ok::<
                    (),
                    ActorFailure,
                >(()),
                Queued::Full => final(self).status == old(self).status.stopping(
                    ActorFailure::QueueFull,
                ) && result == Err::<(), _>(ActorFailure::QueueFull),
                Queued::Disconnected => final(self).status == old(self).status.stopping(
                    ActorFailure::PeerGone,
                ) && result == Err::<(), _>(ActorFailure::PeerGone),
            },
    {
        let failure = match outcome {
            Queued::Sent => return Ok(()),
            Queued::Full => ActorFailure::QueueFull,
            Queued::Disconnected => ActorFailure::PeerGone,
        };
        self.status.stop(failure);
        Err(failure)
    }

    /// What the response queue gave: a frame, nothing yet, or its end. `before` and `after` tell
    /// how the thread stood around the poll; a frame that arrives together with a failure is
    /// withheld.
    pub fn try_response(&mut self, before: Worker, polled: Polled, after: Worker) -> (response:
        Result<Option<Frame>, ActorFailure>)
        ensures
            ({
                let seen = old(self).observed(before);
                match seen.stopped {
                    Some(failure) => final(self).status == seen && response == Err::<
                        Option<Frame>,
                        _,
                    >(failure),
                    None => match polled {
                        Polled::Frame(frame) => {
                            &&& final(self).status == (DestinationActor { status: seen }).observed(
                                after,
                            )
                            &&& response == (match (DestinationActor { status: seen }).observed(
                                after,
                            ).stopped {
                                Some(failure) => Err(failure),
                                None => Ok(Some(frame)),
                            })
                        },
                        Polled::Empty => final(self).status == seen && response == Ok::<
                            Option<Frame>,
                            ActorFailure,
                        >(None),
                        Polled::Disconnected => final(self).status == seen.stopping(
                            ActorFailure::PeerGone,
                        ) && response == Err::<Option<Frame>, _>(ActorFailure::PeerGone),
                    },
                }
            }),
    {
        if let Some(failure) = self.failure(before) {
            return Err(failure);
        }
        match polled {
            Polled::Frame(frame) => match self.failure(after) {
                Some(failure) => Err(failure),
                None => Ok(Some(frame)),
            },
            Polled::Empty => Ok(None),
            Polled::Disconnected => {
                self.status.stop(ActorFailure::PeerGone);
                Err(ActorFailure::PeerGone)
            },
        }
    }

    pub fn request_stop(&mut self)
        ensures
            final(self).status == old(self).status.stopping(ActorFailure::Requested),
    {
        self.status.stop(ActorFailure::Requested);
    }

    pub fn stats(&self) -> (stats: ReceiverStats)
        ensures
            stats == self.status.stats,
    {
        self.status.stats
    }

    /// True while the source has been silent past the deadline and the receiver waits for its
    /// barrier with everything released.
    pub fn is_held(&self) -> (held: bool)
        ensures
            held == self.status.held,
    {
        self.status.held
    }

    pub fn active_display(&mut self, worker: Worker) -> (display: Option<DisplayId>)
        ensures
            final(self).status == (if old(self).status.started {
                old(self).observed(worker)
            } else {
                old(self).status
            }),
            display == (if old(self).status.started && old(self).observed(worker).stopped is None {
                old(self).status.active
            } else {
                None
            }),
    {
        if self.is_started(worker) {
            self.status.active
        } else {
            None
        }
    }

    pub fn is_finished(&self, worker: Worker) -> (finished: bool)
        ensures
            finished == (worker != Worker::Running),
    {
        worker != Worker::Running
    }

    pub fn cleanup_pending(&self) -> (pending: bool)
        ensures
            pending == self.status.cleanup_pending,
    {
        self.status.cleanup_pending
    }

    /// Asks the worker to stop and tells whether its thread is over and can be joined.
    pub fn finish(&mut self, worker: Worker) -> (finished: bool)
        ensures
            final(self).status == old(self).status.stopping(ActorFailure::Requested),
            finished == (worker != Worker::Running),
    {
        self.request_stop();
        self.is_finished(worker)
    }

    /// The worker's thread was joined.
    pub fn joined(&mut self, panicked: bool)
        ensures
            final(self).status == (if panicked {
                old(self).status.stopping(ActorFailure::Panicked)
            } else {
                old(self).status
            }),
    {
        if panicked {
            self.status.stop(ActorFailure::Panicked);
        }
    }
}

/// What a queue gives without waiting.
pub enum Polled {
    Frame(Frame),
    Empty,
    Disconnected,
}

/// An actor that was asked to stop keeps that reason, whatever happens to its thread later.
pub proof fn law_the_first_stop_reason_stays(
    status: Status,
    first: ActorFailure,
    later: ActorFailure,
    report: StopReport,
    now: nat,
    last_frame_at: Option<Duration>,
)
    requires
        status.stopped is None,
    ensures
        status.stopping(first).stopping(later).stopped == Some(first),
        status.stopping(first).receiver_stopped(report, now, last_frame_at).stopped == Some(first),
{
}

/// The next number on each outgoing stream.
#[derive(Clone, Copy, Debug, PartialEq, Eq, Structural)]
pub struct OutputSequences {
    pub control: u64,
    pub input: u64,
    pub epoch: SessionEpoch,
}

impl OutputSequences {
    /// The stream a message belongs to, at the start of a new epoch where it begins one.
    pub open spec fn turned_to(self, message: Message, epoch: SessionEpoch) -> OutputSequences {
        if !message.is_heartbeat_message() && epoch != self.epoch {
            OutputSequences { epoch, input: 0, ..self }
        } else {
            self
        }
    }

    /// The number the next message on its stream carries.
    pub open spec fn next_for(self, message: Message) -> u64 {
        if message.is_heartbeat_message() {
            self.control
        } else {
            self.input
        }
    }

    /// The frame that carries `message`, and the streams after it; none once a stream is used up.
    ///
    /// Heartbeats keep the control epoch and its numbers. Everything else is numbered from zero in
    /// each input epoch.
    pub fn next_frame(
        &mut self,
        message: Message,
        control_epoch: SessionEpoch,
        input_epoch: SessionEpoch,
        status: &mut Status,
    ) -> (frame: Option<Frame>)
        ensures
            ({
                let turned = old(self).turned_to(message, input_epoch);
                let sequence = turned.next_for(message);
                if sequence == u64::MAX {
                    &&& frame is None
                    &&& *final(self) == turned
                    &&& *final(status) == old(status).stopping(ActorFailure::SequenceExhausted)
                } else {
                    &&& frame matches Some(made) && made.epoch == (
                    if message.is_heartbeat_message() {
                        control_epoch
                    } else {
                        input_epoch
                    }) && made.sequence == sequence && made.message == message && made.scope
                        == FrameScope::Connection && made.delivery == DeliveryClass::Reliable
                    &&& *final(self) == (if message.is_heartbeat_message() {
                        OutputSequences { control: (sequence + 1) as u64, ..turned }
                    } else {
                        OutputSequences { input: (sequence + 1) as u64, ..turned }
                    })
                    &&& *final(status) == *old(status)
                }
            }),
    {
        let control = message.is_heartbeat();
        let epoch = if control {
            control_epoch
        } else {
            input_epoch
        };
        if !control && epoch != self.epoch {
            self.epoch = epoch;
            self.input = 0;
        }
        let sequence: u64 = if control {
            self.control
        } else {
            self.input
        };
        match sequence.checked_add(1) {
            Some(next) => {
                if control {
                    self.control = next;
                } else {
                    self.input = next;
                }
                Some(Frame::new(epoch, sequence, message))
            },
            None => {
                status.stop(ActorFailure::SequenceExhausted);
                None
            },
        }
    }
}

/// How an outgoing frame fared at the queue to the network writer.
pub fn frame_queued(status: &mut Status, outcome: Queued)
    ensures
        *final(status) == (match outcome {
            Queued::Sent => *old(status),
            Queued::Full => old(status).stopping(ActorFailure::QueueFull),
            Queued::Disconnected => old(status).stopping(ActorFailure::PeerGone),
        }),
{
    match outcome {
        Queued::Sent => {},
        Queued::Full => status.stop(ActorFailure::QueueFull),
        Queued::Disconnected => status.stop(ActorFailure::PeerGone),
    }
}

/// What the receive loop does next.
#[derive(Clone, Copy, Debug, PartialEq, Eq, Structural)]
pub enum LoopAction {
    /// Read the clock and the stop signal, then call [`ReceiverLoop::wake`].
    Wake,
    ValidateEnvironment,
    /// Let a local take-back act first.
    TakeBack,
    Tick,
    /// Ask the queue for a frame.
    Poll,
    /// Sleep for one [`TICK`], then wake.
    Wait,
    TakeBackInBatch,
    Receive,
    /// Ask the queue for one more frame of the same batch.
    Queue,
    Flush,
    /// Measure how long the batch took.
    Measure,
    /// Leave the loop and release everything.
    CleanUp,
}

/// What the queue of incoming frames gave.
#[derive(Clone, Copy, Debug, PartialEq, Eq, Structural)]
pub enum Incoming {
    Frame,
    Empty,
    Disconnected,
}

/// One receive loop between its steps.
#[derive(Clone, Copy, Debug, PartialEq, Eq, Structural)]
pub struct ReceiverLoop {
    /// The moment the current pass or batch counts as.
    pub now: Duration,
    pub checked_environment: Duration,
    pub last_frame_at: Option<Duration>,
    /// Frames of the current batch so far.
    pub batch: u64,
}

/// A frame count with one more batch in it.
pub open spec fn counted(stats: ReceiverStats, batch: u64) -> ReceiverStats {
    ReceiverStats {
        frames: stats.frames.wrapping_add(batch),
        batch_max: greater(stats.batch_max, batch),
        batch_buckets: counted_bucket(stats.batch_buckets, bucket(batch)),
        ..stats
    }
}

/// The four counters with one of them raised.
pub open spec fn counted_bucket(buckets: [u64; 4], raised: int) -> [u64; 4] {
    [
        if raised == 0 {
            buckets[0].wrapping_add(1)
        } else {
            buckets[0]
        },
        if raised == 1 {
            buckets[1].wrapping_add(1)
        } else {
            buckets[1]
        },
        if raised == 2 {
            buckets[2].wrapping_add(1)
        } else {
            buckets[2]
        },
        if raised == 3 {
            buckets[3].wrapping_add(1)
        } else {
            buckets[3]
        },
    ]
}

impl ReceiverLoop {
    pub fn new() -> (pass: ReceiverLoop)
        ensures
            pass == (ReceiverLoop {
                now: 0,
                checked_environment: 0,
                last_frame_at: None,
                batch: 0,
            }),
    {
        ReceiverLoop { now: 0, checked_environment: 0, last_frame_at: None, batch: 0 }
    }

    /// A pass begins: a stop ends the loop, and the surroundings are checked when that is due.
    pub fn wake(&mut self, status: &mut Status, now: Duration, stopping: bool) -> (action:
        LoopAction)
        ensures
            if old(status).stopped is Some {
                *final(status) == *old(status) && *final(self) == *old(self) && action
                    == LoopAction::CleanUp
            } else if stopping {
                *final(status) == old(status).stopping(ActorFailure::Revoked) && *final(self)
                    == *old(self) && action == LoopAction::CleanUp
            } else {
                &&& *final(status) == *old(status)
                &&& *final(self) == (ReceiverLoop { now, ..*old(self) })
                &&& action == (if span(now as nat, old(self).checked_environment as nat)
                    >= DISPLAY_CHECK_INTERVAL {
                    LoopAction::ValidateEnvironment
                } else {
                    LoopAction::TakeBack
                })
            },
    {
        if status.failure().is_some() {
            return LoopAction::CleanUp;
        }
        if stopping {
            status.stop(ActorFailure::Revoked);
            return LoopAction::CleanUp;
        }
        self.now = now;
        if now.saturating_sub(self.checked_environment) >= DISPLAY_CHECK_INTERVAL {
            LoopAction::ValidateEnvironment
        } else {
            LoopAction::TakeBack
        }
    }

    /// The surroundings were checked, which took `micros`.
    pub fn environment(
        &mut self,
        status: &mut Status,
        passed: bool,
        displays_changed: bool,
        micros: u64,
    ) -> (action: LoopAction)
        ensures
            ({
                let measured = Status {
                    stats: ReceiverStats {
                        env_max_micros: greater(old(status).stats.env_max_micros, micros),
                        ..old(status).stats
                    },
                    ..*old(status)
                };
                if passed {
                    *final(status) == measured && *final(self) == (ReceiverLoop {
                        checked_environment: old(self).now,
                        ..*old(self)
                    }) && action == LoopAction::TakeBack
                } else {
                    *final(status) == measured.stopping(environment_reason(displays_changed))
                        && *final(self) == *old(self) && action == LoopAction::CleanUp
                }
            }),
    {
        status.stats.env_max_micros = max_u64(status.stats.env_max_micros, micros);
        if status.surroundings_failed(passed, displays_changed) {
            return LoopAction::CleanUp;
        }
        self.checked_environment = self.now;
        LoopAction::TakeBack
    }

    /// A local take-back was asked for, with the rule that stopped the receiver if one did.
    pub fn took_back(&self, status: &mut Status, stopped: Option<StopReport>) -> (action:
        LoopAction)
        ensures
            match stopped {
                Some(report) => *final(status) == old(status).receiver_stopped(
                    report,
                    self.now as nat,
                    self.last_frame_at,
                ) && action == LoopAction::CleanUp,
                None => *final(status) == *old(status) && action == LoopAction::Tick,
            },
    {
        match stopped {
            Some(report) => {
                status.stop_receiver(report, self.now, self.last_frame_at);
                LoopAction::CleanUp
            },
            None => LoopAction::Tick,
        }
    }

    /// Runs the receiver's tick.
    pub fn tick<D: InputDestination>(&self, receiver: &mut InputReceiver, destination: &mut D) -> (
    report: StepReport)
        requires
            old(receiver)@.wf(),
        ensures
            final(receiver)@.wf(),
            ({
                let (run, expected) = run_of(*old(receiver), *old(destination)).ticked(
                    self.now as nat,
                    final(destination).history(),
                );
                &&& run_of(*final(receiver), *final(destination)) == run
                &&& exists|response: Response| #[trigger]
                    report.tells(response, final(receiver)@, self.now as nat) && ping_result(
                        response,
                        expected,
                    )
            }),
    {
        let response = receiver.tick(self.now, destination);
        let ghost given = response;
        let report = step_report(receiver, response, self.now);
        assert(report.tells(given, receiver@, self.now as nat));
        report
    }

    /// Receives one frame of a batch.
    pub fn receive<D: InputDestination>(
        &self,
        receiver: &mut InputReceiver,
        frame: &Frame,
        admission: Admission,
        destination: &mut D,
    ) -> (report: StepReport)
        requires
            old(receiver)@.wf(),
        ensures
            final(receiver)@.wf(),
            ({
                let (run, response) = run_of(*old(receiver), *old(destination)).received(
                    *frame,
                    self.now as nat,
                    admission,
                    final(destination).history(),
                );
                &&& run_of(*final(receiver), *final(destination)) == run
                &&& report.tells(response, final(receiver)@, self.now as nat)
            }),
    {
        let response = receiver.receive(frame, self.now, admission, destination);
        step_report(receiver, response, self.now)
    }

    /// Injects the burst's last pointer position, and reports the rule that stopped the receiver.
    pub fn flush<D: InputDestination>(&self, receiver: &mut InputReceiver, destination: &mut D) -> (
    stopped: Option<StopReport>)
        requires
            old(receiver)@.wf(),
        ensures
            final(receiver)@.wf(),
            ({
                let (run, result) = run_of(*old(receiver), *old(destination)).flushed(
                    final(destination).history(),
                );
                &&& run_of(*final(receiver), *final(destination)) == run
                &&& match result {
                    Ok(()) => stopped is None,
                    Err(failure) => stopped matches Some(report) && is_stop_report(
                        report,
                        final(receiver)@,
                        failure,
                        self.now as nat,
                    ),
                }
            }),
    {
        match receiver.flush(destination) {
            Ok(()) => None,
            Err(failure) => Some(stop_report(receiver, failure, self.now)),
        }
    }

    /// The receiver's tick ran, and what it answered was sent on.
    pub fn ticked(&self, status: &mut Status, stopped: Option<StopReport>, holds: HoldReport) -> (
    action: LoopAction)
        ensures
            match stopped {
                Some(report) => *final(status) == old(status).receiver_stopped(
                    report,
                    self.now as nat,
                    self.last_frame_at,
                ) && action == LoopAction::CleanUp,
                None => *final(status) == old(status).holding(holds) && action == (if old(
                    status,
                ).stopped is Some {
                    LoopAction::CleanUp
                } else {
                    LoopAction::Poll
                }),
            },
    {
        if let Some(report) = stopped {
            status.stop_receiver(report, self.now, self.last_frame_at);
            return LoopAction::CleanUp;
        }
        status.note_hold(holds);
        if status.failure().is_some() {
            LoopAction::CleanUp
        } else {
            LoopAction::Poll
        }
    }

    /// The queue was asked for a frame. `now` is read after it gave one: everything already queued
    /// is validated at one time and injected once per burst, so a fast mouse cannot push the
    /// peer's health replies behind its own motion.
    pub fn polled(
        &mut self,
        status: &mut Status,
        incoming: Incoming,
        stopping: bool,
        now: Duration,
    ) -> (action: LoopAction)
        ensures
            match incoming {
                Incoming::Disconnected => *final(status) == old(status).stopping(
                    ActorFailure::PeerGone,
                ) && *final(self) == *old(self) && action == LoopAction::CleanUp,
                Incoming::Empty => *final(status) == *old(status) && *final(self) == *old(self)
                    && action == LoopAction::Wait,
                Incoming::Frame => if old(status).ends(stopping) {
                    *final(status) == *old(status) && *final(self) == *old(self) && action
                        == LoopAction::Wake
                } else {
                    &&& *final(status) == (match old(self).last_frame_at {
                        Some(previous) => Status {
                            stats: ReceiverStats {
                                gap_max_millis: greater(
                                    old(status).stats.gap_max_millis,
                                    as_millis(span(now as nat, previous as nat)),
                                ),
                                ..old(status).stats
                            },
                            ..*old(status)
                        },
                        None => *old(status),
                    })
                    &&& *final(self) == (ReceiverLoop {
                        now,
                        last_frame_at: Some(now),
                        batch: 1,
                        ..*old(self)
                    })
                    &&& action == LoopAction::TakeBackInBatch
                },
            },
    {
        match incoming {
            Incoming::Disconnected => {
                status.stop(ActorFailure::PeerGone);
                LoopAction::CleanUp
            },
            Incoming::Empty => LoopAction::Wait,
            Incoming::Frame => {
                if stopping || status.failure().is_some() {
                    return LoopAction::Wake;
                }
                if let Some(previous) = self.last_frame_at {
                    status.stats.gap_max_millis = max_u64(
                        status.stats.gap_max_millis,
                        millis_u64(now.saturating_sub(previous)),
                    );
                }
                self.now = now;
                self.last_frame_at = Some(now);
                self.batch = 1;
                LoopAction::TakeBackInBatch
            },
        }
    }

    /// As [`ReceiverLoop::took_back`], before a frame of a batch.
    pub fn took_back_in_batch(&self, status: &mut Status, stopped: Option<StopReport>) -> (action:
        LoopAction)
        ensures
            match stopped {
                Some(report) => self.closed(
                    old(status).receiver_stopped(report, self.now as nat, self.last_frame_at),
                    *final(status),
                    action,
                ),
                None => *final(status) == *old(status) && action == LoopAction::Receive,
            },
    {
        match stopped {
            Some(report) => {
                status.stop_receiver(report, self.now, self.last_frame_at);
                self.close_batch(status)
            },
            None => LoopAction::Receive,
        }
    }

    /// A frame was received, and what it answered was sent on.
    pub fn received(
        &self,
        status: &mut Status,
        stopped: Option<StopReport>,
        active: Option<DisplayId>,
        holds: HoldReport,
    ) -> (action: LoopAction)
        ensures
            ({
                let noted = Status { active, ..*old(status) }.holding(holds);
                match stopped {
                    Some(report) => self.closed(
                        noted.receiver_stopped(report, self.now as nat, self.last_frame_at),
                        *final(status),
                        action,
                    ),
                    None => if self.batch < SESSION_QUEUE_CAPACITY {
                        *final(status) == noted && action == LoopAction::Queue
                    } else {
                        self.closed(noted, *final(status), action)
                    },
                }
            }),
    {
        status.show(active, holds);
        if let Some(report) = stopped {
            status.stop_receiver(report, self.now, self.last_frame_at);
            return self.close_batch(status);
        }
        if self.batch < SESSION_QUEUE_CAPACITY as u64 {
            LoopAction::Queue
        } else {
            self.close_batch(status)
        }
    }

    /// Whether one more frame of the batch was already queued.
    pub fn queued(&mut self, status: &mut Status, more: bool) -> (action: LoopAction)
        requires
            old(self).batch < SESSION_QUEUE_CAPACITY,
        ensures
            if more {
                *final(status) == *old(status) && *final(self) == (ReceiverLoop {
                    batch: (old(self).batch + 1) as u64,
                    ..*old(self)
                }) && action == LoopAction::TakeBackInBatch
            } else {
                *final(self) == *old(self) && old(self).closed(
                    *old(status),
                    *final(status),
                    action,
                )
            },
    {
        if more {
            self.batch = self.batch + 1;
            LoopAction::TakeBackInBatch
        } else {
            self.close_batch(status)
        }
    }

    /// The burst's last pointer position was injected.
    pub fn flushed(&self, status: &mut Status, stopped: Option<StopReport>) -> (action: LoopAction)
        ensures
            action == LoopAction::Measure,
            *final(status) == (match stopped {
                Some(report) => old(status).receiver_stopped(
                    report,
                    self.now as nat,
                    self.last_frame_at,
                ),
                None => *old(status),
            }),
    {
        if let Some(report) = stopped {
            status.stop_receiver(report, self.now, self.last_frame_at);
        }
        LoopAction::Measure
    }

    /// The batch was over `micros` after it began.
    pub fn measured(&self, status: &mut Status, micros: u64) -> (action: LoopAction)
        ensures
            action == LoopAction::Wake,
            *final(status) == (Status {
                stats: ReceiverStats {
                    apply_max_micros: greater(old(status).stats.apply_max_micros, micros),
                    slow_applies: if micros > SLOW_APPLY_MICROS {
                        old(status).stats.slow_applies.wrapping_add(1)
                    } else {
                        old(status).stats.slow_applies
                    },
                    ..old(status).stats
                },
                ..*old(status)
            }),
    {
        status.stats.apply_max_micros = max_u64(status.stats.apply_max_micros, micros);
        if micros > SLOW_APPLY_MICROS {
            status.stats.slow_applies = status.stats.slow_applies.wrapping_add(1);
        }
        LoopAction::Wake
    }

    /// A batch is counted, and flushed unless the receiver was stopped.
    pub open spec fn closed(self, before: Status, after: Status, action: LoopAction) -> bool {
        &&& after == (Status { stats: counted(before.stats, self.batch), ..before })
        &&& action == (if before.stopped is Some {
            LoopAction::Measure
        } else {
            LoopAction::Flush
        })
    }

    fn close_batch(&self, status: &mut Status) -> (action: LoopAction)
        ensures
            self.closed(*old(status), *final(status), action),
    {
        let batch: u64 = self.batch;
        status.stats.frames = status.stats.frames.wrapping_add(batch);
        status.stats.batch_max = max_u64(status.stats.batch_max, batch);
        let index: usize = if batch <= 1 {
            0
        } else if batch <= 3 {
            1
        } else if batch <= 8 {
            2
        } else {
            3
        };
        let ghost before = status.stats.batch_buckets;
        let raised: u64 = status.stats.batch_buckets[index].wrapping_add(1);
        status.stats.batch_buckets[index] = raised;
        assert(status.stats.batch_buckets =~= counted_bucket(before, bucket(batch)));
        if status.failure().is_some() {
            LoopAction::Measure
        } else {
            LoopAction::Flush
        }
    }
}

/// A batch that ends after anything stopped the worker is counted but not flushed: what it left
/// waiting is never injected.
pub proof fn law_a_stopped_batch_is_not_flushed(
    pass: ReceiverLoop,
    before: Status,
    after: Status,
    action: LoopAction,
)
    requires
        before.stopped is Some,
        pass.closed(before, after, action),
    ensures
        action == LoopAction::Measure,
        after.stopped == before.stopped,
{
}

/// A stop gives its reason where there was none, and touches nothing else.
pub proof fn law_a_stop_only_gives_its_reason(status: Status, reason: ActorFailure)
    ensures
        status.stopped is None ==> status.stopping(reason).stopped == Some(reason),
        status.stopped is Some ==> status.stopping(reason) == status,
        status.stopping(reason) == (Status {
            stopped: status.stopping(reason).stopped,
            ..status
        }),
{
}

/// A receiver that stopped stops its actor, which keeps the broken rule and how long ago, in whole
/// milliseconds, the last reply, the unanswered challenge and the last frame were.
pub proof fn law_a_stopped_receiver_is_reported(
    status: Status,
    report: StopReport,
    now: nat,
    last_frame_at: Option<Duration>,
)
    requires
        report.reply_age < u64::MAX,
        report.ping_age matches Some(age) ==> age < u64::MAX,
        last_frame_at matches Some(at) ==> at <= now < at + u64::MAX,
    ensures
        ({
            let after = status.receiver_stopped(report, now, last_frame_at);
            &&& after.stopped == (if status.stopped is Some {
                status.stopped
            } else {
                Some(ActorFailure::Receiver)
            })
            &&& after.last_receiver_failure == Some(report.failure)
            &&& after.stats.reply_age_millis == report.reply_age / 1_000_000
            &&& after.stats.ping_age_millis is Some <==> report.ping_age is Some
            &&& report.ping_age matches Some(age) ==> after.stats.ping_age_millis == Some(
                (age / 1_000_000) as u64,
            )
            &&& after.stats.frame_age_millis is Some <==> last_frame_at is Some
            &&& last_frame_at matches Some(at) ==> after.stats.frame_age_millis == Some(
                ((now - at) / 1_000_000) as u64,
            )
            &&& after.stats.frames == status.stats.frames
            &&& after.active == status.active
            &&& after.held == status.held
        }),
{
}

/// What the receiver says of its holds is kept as it says it, in whole milliseconds.
pub proof fn law_holds_are_kept(status: Status, report: HoldReport)
    requires
        report.held_max < u64::MAX,
    ensures
        status.holding(report).held == report.is_held,
        status.holding(report).stats.holds == report.holds,
        status.holding(report).stats.held_max_millis == report.held_max / 1_000_000,
        status.holding(report).stopped == status.stopped,
        status.holding(report).stats.frames == status.stats.frames,
{
}

/// A worker that ended without a reason counts as panicked; any other state of it says nothing new.
pub proof fn law_a_silent_end_is_a_panic(actor: DestinationActor, worker: Worker)
    ensures
        actor.status.stopped is None && worker == Worker::Ended ==> actor.observed(worker).stopped
            == Some(ActorFailure::Panicked),
        actor.status.stopped is Some || worker != Worker::Ended ==> actor.observed(worker)
            == actor.status,
{
}

/// Changed displays are told apart from every other fault of the surroundings.
pub proof fn law_changed_displays_are_named(displays_changed: bool)
    ensures
        environment_reason(displays_changed) == ActorFailure::LocalDisplaysChanged
            <==> displays_changed,
        !displays_changed ==> environment_reason(displays_changed) == ActorFailure::Native,
{
}

/// Heartbeats and answers are numbered apart. Answers begin at zero with every new epoch; a
/// heartbeat takes no part in that, and no number of heartbeats is ever set back.
pub proof fn law_answers_are_numbered_within_their_epoch(
    sequences: OutputSequences,
    message: Message,
    epoch: SessionEpoch,
)
    ensures
        ({
            let turned = sequences.turned_to(message, epoch);
            &&& turned.control == sequences.control
            &&& message.is_heartbeat_message() ==> turned == sequences && turned.next_for(message)
                == sequences.control
            &&& !message.is_heartbeat_message() ==> turned.epoch == epoch && turned.next_for(
                message,
            ) == (if epoch == sequences.epoch {
                sequences.input
            } else {
                0
            })
        }),
{
}

/// A batch counts every frame of it, raises the largest batch where it is larger, and falls into
/// exactly one of the four sizes.
pub proof fn law_a_batch_is_counted_once(stats: ReceiverStats, batch: u64)
    requires
        stats.frames + batch <= u64::MAX,
        forall|i: int| 0 <= i < 4 ==> #[trigger] stats.batch_buckets[i] < u64::MAX,
    ensures
        ({
            let after = counted(stats, batch);
            let size: int = if batch <= 1 {
                0
            } else if batch <= 3 {
                1
            } else if batch <= 8 {
                2
            } else {
                3
            };
            &&& after.frames == stats.frames + batch
            &&& after.batch_max >= stats.batch_max
            &&& after.batch_max >= batch
            &&& after.batch_max == stats.batch_max || after.batch_max == batch
            &&& forall|i: int| 0 <= i < 4 ==> #[trigger] after.batch_buckets[i] == (if i == size {
                stats.batch_buckets[i] + 1
            } else {
                stats.batch_buckets[i] as int
            })
            &&& after.slow_applies == stats.slow_applies
            &&& after.gap_max_millis == stats.gap_max_millis
        }),
{
    assert(stats.batch_buckets[0] < u64::MAX && stats.batch_buckets[1] < u64::MAX
        && stats.batch_buckets[2] < u64::MAX && stats.batch_buckets[3] < u64::MAX);
    let after = counted(stats, batch);
    assert(after.batch_buckets@.len() == 4);
}

} // verus!
