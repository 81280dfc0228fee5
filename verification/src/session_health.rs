//! Fresh request/response progress, independent of input traffic or queued heartbeats.

use crate::time::{longer, longest, span, Duration, ZERO};
use vstd::prelude::*;

verus! {

pub const HEARTBEAT_INTERVAL: Duration = 30_000_000;

/// A peer silent for this long is gone. Sized above Wi-Fi scan stalls so one late packet does
/// not end a session; the local suppression lease stays bounded separately.
pub const PEER_LIVENESS: Duration = 500_000_000;

/// Native suppression renewed by a controller that then stalls expires within this bound.
pub const SUPPRESSION_LEASE_CAP: Duration = 120_000_000;

/// A source whose peer has been silent this long brings input home while its native lease is
/// still valid, so a stall never ends in a terminal lease expiry.
pub const RETREAT_AFTER: Duration = 380_000_000;

/// How long a held session waits for the link to come back before it ends as a health failure.
/// Sized under the QUIC idle timeout so the transport never closes first.
pub const HOLD_LIMIT: Duration = 5_000_000_000;

/// A held source whose barrier was acknowledged but that hears no fresh reply sends another
/// barrier after this long: the receiver consumed the last one just before holding itself.
pub const BARRIER_RESEND_AFTER: Duration = PEER_LIVENESS;

#[derive(Clone, Copy, Debug, PartialEq, Eq, Structural)]
pub enum HealthError {
    ClockRegression,
    DeadlineExpired,
    UnexpectedResponse,
    TokenExhausted,
}

/// How many holds a session survived and the longest one, including one still running.
pub fn hold_stats(
    holds: u32,
    held_max: Duration,
    held_since: Option<Duration>,
    now: Duration,
) -> (stats: (u32, Duration))
    ensures
        stats.0 == holds,
        stats.1 == longest_hold(
            held_max as nat,
            match held_since {
                Some(since) => Some(since as nat),
                None => None,
            },
            now as nat,
        ),
{
    let running: Duration = match held_since {
        Some(since) => now.saturating_sub(since),
        None => ZERO,
    };
    (holds, longest(held_max, running))
}

/// The longest hold seen by `now`, counting the one that began at `held_since`.
pub open spec fn longest_hold(held_max: nat, held_since: Option<nat>, now: nat) -> nat {
    match held_since {
        Some(since) => longer(held_max, span(now, since)),
        None => held_max,
    }
}

/// What a [`PeerHealth`] knows, with every instant in nanoseconds.
pub struct HealthView {
    pub last_now: nat,
    pub last_response: nat,
    pub last_sent: Option<nat>,
    pub next_token: nat,
    pub last_acked: nat,
    pub confirmed: bool,
    pub failure: Option<HealthError>,
}

impl HealthView {
    /// Nothing recorded lies in the future, and no token is acknowledged before it was issued.
    pub open spec fn wf(self) -> bool {
        &&& self.last_response <= self.last_now
        &&& (self.last_sent matches Some(sent) ==> sent <= self.last_now)
        &&& self.last_acked < self.next_token <= u64::MAX
    }

    /// The first failure stays; a later one leaves it as it is.
    pub open spec fn failing(self, error: HealthError) -> HealthView {
        HealthView {
            failure: Some(
                match self.failure {
                    Some(first) => first,
                    None => error,
                },
            ),
            ..self
        }
    }

    /// The clock moved to `now`.
    pub open spec fn at(self, now: nat) -> HealthView {
        HealthView { last_now: now, ..self }
    }

    /// No fresh reply for the whole deadline at `now`.
    pub open spec fn expired(self, now: nat) -> bool {
        now - self.last_response >= PEER_LIVENESS as nat
    }

    /// A challenge is due at `now`: none was sent yet, or the last one an interval ago.
    pub open spec fn challenge_due(self, now: nat) -> bool {
        match self.last_sent {
            Some(sent) => now - sent >= HEARTBEAT_INTERVAL as nat,
            None => true,
        }
    }

    /// What moving the clock to `now` leaves, without judging the deadline.
    pub open spec fn advanced(self, now: nat) -> (HealthView, Result<(), HealthError>) {
        if now < self.last_now {
            let failed = self.failing(HealthError::ClockRegression);
            (failed, Err(failed.failure->0))
        } else {
            (self.at(now), Ok(()))
        }
    }

    /// What a check at `now` leaves and answers.
    pub open spec fn checked(self, now: nat) -> (HealthView, Result<(), HealthError>) {
        if self.failure is Some {
            (self, Err(self.failure->0))
        } else if now < self.last_now {
            (self.failing(HealthError::ClockRegression), Err(HealthError::ClockRegression))
        } else if self.expired(now) {
            (self.at(now).failing(HealthError::DeadlineExpired), Err(HealthError::DeadlineExpired))
        } else {
            (self.at(now), Ok(()))
        }
    }

    /// What issuing a challenge at `now` leaves and answers, once the clock is admitted.
    pub open spec fn challenged(self, now: nat) -> (HealthView, Result<Option<nat>, HealthError>) {
        if !self.challenge_due(now) {
            (self, Ok(None))
        } else if self.next_token == u64::MAX {
            let failed = self.failing(HealthError::TokenExhausted);
            (failed, Err(failed.failure->0))
        } else {
            (
                HealthView { next_token: self.next_token + 1, last_sent: Some(now), ..self },
                Ok(Some(self.next_token)),
            )
        }
    }

    /// What a reply to `token` at `now` leaves and answers, once the clock is admitted. The
    /// answer tells whether it is the first reply to a challenge this new.
    pub open spec fn answered(self, token: nat, now: nat) -> (
        HealthView,
        Result<bool, HealthError>,
    ) {
        if token >= self.next_token {
            let failed = self.failing(HealthError::UnexpectedResponse);
            (failed, Err(failed.failure->0))
        } else if token <= self.last_acked {
            (self, Ok(false))
        } else {
            (
                HealthView {
                    last_acked: token,
                    last_response: now,
                    confirmed: true,
                    ..self
                },
                Ok(true),
            )
        }
    }

    /// What [`PeerHealth::poll`] leaves and answers.
    pub open spec fn polled(self, now: nat) -> (HealthView, Result<Option<nat>, HealthError>) {
        match self.checked(now) {
            (after, Err(error)) => (after, Err(error)),
            (after, Ok(())) => after.challenged(now),
        }
    }

    /// What [`PeerHealth::receive_pong`] leaves and answers, with whether the reply was fresh.
    pub open spec fn replied(self, token: nat, now: nat) -> (
        HealthView,
        Result<bool, HealthError>,
    ) {
        match self.checked(now) {
            (after, Err(error)) => (after, Err(error)),
            (after, Ok(())) => after.answered(token, now),
        }
    }

    /// What is left of the suppression lease at `now`, while the deadline has not passed.
    pub open spec fn lease(self, now: nat) -> nat {
        let left = PEER_LIVENESS - (now - self.last_response);
        if left < SUPPRESSION_LEASE_CAP {
            left as nat
        } else {
            SUPPRESSION_LEASE_CAP as nat
        }
    }

    /// What [`PeerHealth::hold`] leaves and answers.
    pub open spec fn held(self, now: nat) -> (HealthView, Result<(), HealthError>) {
        match self.failure {
            Some(error) if error != HealthError::DeadlineExpired => (self, Err(error)),
            _ => match self.advanced(now) {
                (after, Err(error)) => (after, Err(error)),
                (after, Ok(())) => (
                    HealthView {
                        failure: None,
                        last_acked: (after.next_token - 1) as nat,
                        confirmed: false,
                        ..after
                    },
                    Ok(()),
                ),
            },
        }
    }

    /// What moving the clock leaves and answers where a latched failure is fatal.
    pub open spec fn admitted(self, now: nat) -> (HealthView, Result<(), HealthError>) {
        match self.failure {
            Some(error) => (self, Err(error)),
            None => self.advanced(now),
        }
    }

    /// What [`PeerHealth::poll_while_held`] leaves and answers.
    pub open spec fn polled_while_held(self, now: nat) -> (
        HealthView,
        Result<Option<nat>, HealthError>,
    ) {
        match self.admitted(now) {
            (after, Err(error)) => (after, Err(error)),
            (after, Ok(())) => after.challenged(now),
        }
    }

    /// What [`PeerHealth::receive_pong_while_held`] leaves and answers.
    pub open spec fn replied_while_held(self, token: nat, now: nat) -> (
        HealthView,
        Result<bool, HealthError>,
    ) {
        match self.admitted(now) {
            (after, Err(error)) => (after, Err(error)),
            (after, Ok(())) => after.answered(token, now),
        }
    }

    /// What [`PeerHealth::resume`] leaves and answers.
    pub open spec fn resumed(self, now: nat) -> (HealthView, Result<(), HealthError>) {
        match self.admitted(now) {
            (after, Err(error)) => (after, Err(error)),
            (after, Ok(())) => (HealthView { last_response: now, confirmed: true, ..after }, Ok(())),
        }
    }
}

/// Challenges go out on a fixed cadence whether or not earlier ones were answered; any reply to
/// a challenge newer than the last acknowledged one is fresh proof, so a lost packet costs one
/// interval instead of the session.
pub struct PeerHealth {
    last_now: Duration,
    last_response: Duration,
    last_sent: Option<Duration>,
    next_token: u64,
    last_acked: u64,
    confirmed: bool,
    failure: Option<HealthError>,
}

impl View for PeerHealth {
    type V = HealthView;

    closed spec fn view(&self) -> HealthView {
        HealthView {
            last_now: self.last_now as nat,
            last_response: self.last_response as nat,
            last_sent: match self.last_sent {
                Some(sent) => Some(sent as nat),
                None => None,
            },
            next_token: self.next_token as nat,
            last_acked: self.last_acked as nat,
            confirmed: self.confirmed,
            failure: self.failure,
        }
    }
}

impl PeerHealth {
    pub fn new(now: Duration) -> (health: PeerHealth)
        ensures
            health@ == (HealthView {
                last_now: now as nat,
                last_response: now as nat,
                last_sent: None,
                next_token: 1,
                last_acked: 0,
                confirmed: false,
                failure: None,
            }),
            health@.wf(),
    {
        PeerHealth {
            last_now: now,
            last_response: now,
            last_sent: None,
            next_token: 1,
            last_acked: 0,
            confirmed: false,
            failure: None,
        }
    }

    pub fn is_confirmed(&self) -> (confirmed: bool)
        ensures
            confirmed == (self@.confirmed && self@.failure is None),
    {
        self.confirmed && self.failure.is_none()
    }

    pub fn last_response(&self) -> (at: Duration)
        ensures
            at as nat == self@.last_response,
    {
        self.last_response
    }

    /// When the newest challenge went out, if any challenge is still unanswered.
    pub fn pending_since(&self) -> (since: Option<Duration>)
        requires
            self@.wf(),
        ensures
            match since {
                Some(at) => self@.last_acked + 1 < self@.next_token && self@.last_sent == Some(at as nat),
                None => self@.last_acked + 1 >= self@.next_token || self@.last_sent is None,
            },
    {
        if self.last_acked + 1 < self.next_token {
            self.last_sent
        } else {
            None
        }
    }

    pub fn poll(&mut self, now: Duration) -> (token: Result<Option<u64>, HealthError>)
        requires
            old(self)@.wf(),
        ensures
            final(self)@.wf(),
            final(self)@ == old(self)@.polled(now as nat).0,
            same_token(token, old(self)@.polled(now as nat).1),
    {
        match self.check(now) {
            Ok(()) => {},
            Err(error) => return Err(error),
        }
        self.challenge(now)
    }

    pub fn receive_pong(&mut self, token: u64, now: Duration) -> (result: Result<(), HealthError>)
        requires
            old(self)@.wf(),
        ensures
            final(self)@.wf(),
            final(self)@ == old(self)@.replied(token as nat, now as nat).0,
            match old(self)@.replied(token as nat, now as nat).1 {
                Ok(_) => result == Ok::<(), HealthError>(()),
                Err(error) => result == Err::<(), _>(error),
            },
    {
        match self.check(now) {
            Ok(()) => {},
            Err(error) => return Err(error),
        }
        // A reply to a challenge already superseded is late, not wrong: it earns no liveness credit.
        match self.answer(token, now) {
            Ok(_) => Ok(()),
            Err(error) => Err(error),
        }
    }

    pub fn check(&mut self, now: Duration) -> (result: Result<(), HealthError>)
        requires
            old(self)@.wf(),
        ensures
            final(self)@.wf(),
            (final(self)@, result) == old(self)@.checked(now as nat),
    {
        if let Some(error) = self.failure {
            return Err(error);
        }
        if now < self.last_now {
            return Err(self.fail(HealthError::ClockRegression));
        }
        self.last_now = now;
        if now - self.last_response >= PEER_LIVENESS {
            return Err(self.fail(HealthError::DeadlineExpired));
        }
        Ok(())
    }

    /// What [`PeerHealth::check`] would answer at `now`.
    pub fn verdict(&self, now: Duration) -> (result: Result<(), HealthError>)
        requires
            self@.wf(),
        ensures
            result == self@.checked(now as nat).1,
    {
        if let Some(error) = self.failure {
            return Err(error);
        }
        if now < self.last_now {
            return Err(HealthError::ClockRegression);
        }
        if now - self.last_response >= PEER_LIVENESS {
            return Err(HealthError::DeadlineExpired);
        }
        Ok(())
    }

    /// Native suppression cannot outlive the last fresh peer response if its controller stalls.
    pub fn remaining(&mut self, now: Duration) -> (left: Result<Duration, HealthError>)
        requires
            old(self)@.wf(),
        ensures
            final(self)@.wf(),
            final(self)@ == old(self)@.checked(now as nat).0,
            match old(self)@.checked(now as nat).1 {
                Ok(()) => left matches Ok(budget) && budget == old(self)@.lease(now as nat),
                Err(error) => left == Err::<Duration, _>(error),
            },
    {
        match self.check(now) {
            Ok(()) => {},
            Err(error) => return Err(error),
        }
        let left: u128 = PEER_LIVENESS - (now - self.last_response);
        if left < SUPPRESSION_LEASE_CAP {
            Ok(left)
        } else {
            Ok(SUPPRESSION_LEASE_CAP)
        }
    }

    /// Enters a hold: an expired deadline stops latching, tokens stay monotonic, and only a reply
    /// to a challenge sent from now on counts, so a reply delayed from before the stall earns
    /// nothing. Any other latched failure stays fatal.
    pub fn hold(&mut self, now: Duration) -> (result: Result<(), HealthError>)
        requires
            old(self)@.wf(),
        ensures
            final(self)@.wf(),
            (final(self)@, result) == old(self)@.held(now as nat),
    {
        match self.failure {
            None | Some(HealthError::DeadlineExpired) => {},
            Some(error) => return Err(error),
        }
        match self.advance(now) {
            Ok(()) => {},
            Err(error) => return Err(error),
        }
        self.failure = None;
        self.last_acked = self.next_token.saturating_sub(1);
        self.confirmed = false;
        Ok(())
    }

    /// Issues challenges on cadence during a hold without judging the deadline.
    pub fn poll_while_held(&mut self, now: Duration) -> (token: Result<Option<u64>, HealthError>)
        requires
            old(self)@.wf(),
        ensures
            final(self)@.wf(),
            final(self)@ == old(self)@.polled_while_held(now as nat).0,
            same_token(token, old(self)@.polled_while_held(now as nat).1),
    {
        if let Some(error) = self.failure {
            return Err(error);
        }
        match self.advance(now) {
            Ok(()) => {},
            Err(error) => return Err(error),
        }
        self.challenge(now)
    }

    /// A reply during a hold: true only when it answers a challenge sent after the hold began.
    pub fn receive_pong_while_held(&mut self, token: u64, now: Duration) -> (fresh: Result<
        bool,
        HealthError,
    >)
        requires
            old(self)@.wf(),
        ensures
            final(self)@.wf(),
            (final(self)@, fresh) == old(self)@.replied_while_held(token as nat, now as nat),
    {
        if let Some(error) = self.failure {
            return Err(error);
        }
        match self.advance(now) {
            Ok(()) => {},
            Err(error) => return Err(error),
        }
        self.answer(token, now)
    }

    /// Ends a hold on a reliably delivered frame from the peer: the deadline restarts here.
    pub fn resume(&mut self, now: Duration) -> (result: Result<(), HealthError>)
        requires
            old(self)@.wf(),
        ensures
            final(self)@.wf(),
            (final(self)@, result) == old(self)@.resumed(now as nat),
    {
        if let Some(error) = self.failure {
            return Err(error);
        }
        match self.advance(now) {
            Ok(()) => {},
            Err(error) => return Err(error),
        }
        self.last_response = now;
        self.confirmed = true;
        Ok(())
    }

    fn challenge(&mut self, now: Duration) -> (token: Result<Option<u64>, HealthError>)
        requires
            old(self)@.wf(),
            now as nat == old(self)@.last_now,
        ensures
            final(self)@.wf(),
            final(self)@ == old(self)@.challenged(now as nat).0,
            same_token(token, old(self)@.challenged(now as nat).1),
    {
        if let Some(last) = self.last_sent {
            if now - last < HEARTBEAT_INTERVAL {
                return Ok(None);
            }
        }
        let token: u64 = self.next_token;
        match token.checked_add(1) {
            Some(next) => {
                self.next_token = next;
                self.last_sent = Some(now);
                Ok(Some(token))
            },
            None => Err(self.fail(HealthError::TokenExhausted)),
        }
    }

    fn answer(&mut self, token: u64, now: Duration) -> (fresh: Result<bool, HealthError>)
        requires
            old(self)@.wf(),
            now as nat == old(self)@.last_now,
        ensures
            final(self)@.wf(),
            (final(self)@, fresh) == old(self)@.answered(token as nat, now as nat),
    {
        if token >= self.next_token {
            return Err(self.fail(HealthError::UnexpectedResponse));
        }
        if token <= self.last_acked {
            return Ok(false);
        }
        self.last_acked = token;
        self.last_response = now;
        self.confirmed = true;
        Ok(true)
    }

    fn advance(&mut self, now: Duration) -> (result: Result<(), HealthError>)
        requires
            old(self)@.wf(),
        ensures
            final(self)@.wf(),
            (final(self)@, result) == old(self)@.advanced(now as nat),
    {
        if now < self.last_now {
            return Err(self.fail(HealthError::ClockRegression));
        }
        self.last_now = now;
        Ok(())
    }

    fn fail(&mut self, error: HealthError) -> (first: HealthError)
        ensures
            final(self)@ == old(self)@.failing(error),
            first == final(self)@.failure->0,
    {
        match self.failure {
            Some(first) => first,
            None => {
                self.failure = Some(error);
                error
            },
        }
    }
}

/// A token as it was handed out and as the model states it.
pub open spec fn same_token(
    token: Result<Option<u64>, HealthError>,
    expected: Result<Option<nat>, HealthError>,
) -> bool {
    match expected {
        Ok(Some(value)) => token matches Ok(Some(issued)) && issued == value,
        Ok(None) => token == Ok::<Option<u64>, HealthError>(None),
        Err(error) => token == Err::<Option<u64>, _>(error),
    }
}

/// A failure is permanent: whatever is asked afterwards answers it and changes nothing. The one
/// exception is an expired deadline, which a hold clears.
pub proof fn law_failure_is_permanent(health: HealthView, error: HealthError, token: nat, now: nat)
    requires
        health.failure == Some(error),
    ensures
        health.checked(now) == (health, Err::<(), _>(error)),
        health.polled(now) == (health, Err::<Option<nat>, _>(error)),
        health.replied(token, now) == (health, Err::<bool, _>(error)),
        health.polled_while_held(now) == (health, Err::<Option<nat>, _>(error)),
        health.replied_while_held(token, now) == (health, Err::<bool, _>(error)),
        health.resumed(now) == (health, Err::<(), _>(error)),
        error != HealthError::DeadlineExpired ==> health.held(now) == (health, Err::<(), _>(error)),
{
}

/// A clock that runs backwards fails every operation for good.
pub proof fn law_clock_regression_fails(health: HealthView, token: nat, now: nat)
    requires
        health.failure is None,
        now < health.last_now,
    ensures
        health.checked(now).1 == Err::<(), _>(HealthError::ClockRegression),
        health.checked(now).0.failure == Some(HealthError::ClockRegression),
        health.polled(now).0 == health.checked(now).0,
        health.replied(token, now).0 == health.checked(now).0,
        health.held(now).0 == health.checked(now).0,
        health.polled_while_held(now).0 == health.checked(now).0,
        health.replied_while_held(token, now).0 == health.checked(now).0,
        health.resumed(now).0 == health.checked(now).0,
{
}

/// Every challenge carries a token never issued before, in a hold and out of it, and no
/// operation takes a token back.
pub proof fn law_tokens_are_monotonic(health: HealthView, token: nat, now: nat)
    requires
        health.wf(),
    ensures
        health.polled(now).1 matches Ok(Some(issued)) ==> issued == health.next_token && health.polled(
            now,
        ).0.next_token == issued + 1,
        health.polled_while_held(now).1 matches Ok(Some(issued)) ==> issued == health.next_token
            && health.polled_while_held(now).0.next_token == issued + 1,
        health.polled(now).0.next_token >= health.next_token,
        health.polled_while_held(now).0.next_token >= health.next_token,
        health.checked(now).0.next_token == health.next_token,
        health.replied(token, now).0.next_token == health.next_token,
        health.replied_while_held(token, now).0.next_token == health.next_token,
        health.held(now).0.next_token == health.next_token,
        health.resumed(now).0.next_token == health.next_token,
{
}

/// Only a reply to a challenge newer than the last acknowledged one moves the deadline: neither
/// asking, nor checking, nor a superseded reply does.
pub proof fn law_only_a_fresh_reply_earns_credit(health: HealthView, token: nat, now: nat)
    requires
        health.wf(),
    ensures
        health.checked(now).0.last_response == health.last_response,
        health.polled(now).0.last_response == health.last_response,
        health.polled_while_held(now).0.last_response == health.last_response,
        health.held(now).0.last_response == health.last_response,
        token <= health.last_acked ==> health.replied(token, now).0.last_response
            == health.last_response,
        health.replied(token, now).0.last_response != health.last_response ==> health.last_acked
            < token < health.next_token && health.replied(token, now).0.last_response == now,
        health.replied_while_held(token, now).1 == Ok::<bool, HealthError>(true)
            ==> health.last_acked < token < health.next_token,
{
}

/// The deadline falls exactly [`PEER_LIVENESS`] after the last fresh reply, whatever else arrives.
pub proof fn law_deadline_follows_the_last_fresh_reply(health: HealthView, now: nat)
    requires
        health.failure is None,
        health.last_now <= now,
    ensures
        health.checked(now).1 is Ok <==> now < health.last_response + PEER_LIVENESS,
        health.checked(now).1 is Err ==> health.checked(now).1->Err_0
            == HealthError::DeadlineExpired,
{
}

/// The suppression lease ends by the deadline and is never longer than its cap.
pub proof fn law_lease_ends_by_the_deadline(health: HealthView, now: nat)
    requires
        health.wf(),
        health.checked(now).1 is Ok,
    ensures
        0 < health.lease(now) <= SUPPRESSION_LEASE_CAP,
        now + health.lease(now) <= health.last_response + PEER_LIVENESS,
{
}

/// A retreat leaves the full lease cap before the deadline.
pub proof fn law_retreat_leaves_the_full_lease(health: HealthView, now: nat)
    requires
        health.wf(),
        health.checked(now).1 is Ok,
        now <= health.last_response + RETREAT_AFTER,
    ensures
        RETREAT_AFTER + SUPPRESSION_LEASE_CAP == PEER_LIVENESS,
        health.lease(now) == SUPPRESSION_LEASE_CAP,
{
}

/// Once a hold began, a reply to any challenge sent before it earns nothing.
pub proof fn law_replies_from_before_a_hold_earn_nothing(
    health: HealthView,
    held_at: nat,
    token: nat,
    now: nat,
)
    requires
        health.wf(),
        health.held(held_at).1 is Ok,
        token < health.next_token,
        held_at <= now,
    ensures
        ({
            let held = health.held(held_at).0;
            &&& !held.confirmed
            &&& held.replied_while_held(token, now) == (held.at(now), Ok::<bool, HealthError>(false))
        }),
{
}

/// Resuming restarts the deadline in full.
pub proof fn law_resume_restarts_the_deadline(health: HealthView, resumed_at: nat, now: nat)
    requires
        health.wf(),
        health.resumed(resumed_at).1 is Ok,
        resumed_at <= now,
    ensures
        health.resumed(resumed_at).0.checked(now).1 is Ok <==> now < resumed_at + PEER_LIVENESS,
{
}

/// A peer that is in time: nothing has failed, the clock goes on, and the last fresh reply is less
/// than the deadline ago.
pub open spec fn in_time(health: HealthView, now: nat) -> bool {
    &&& health.failure is None
    &&& health.last_now <= now
    &&& now < health.last_response + PEER_LIVENESS
}

/// What a reply to a challenge is worth: one to a challenge that is out and newer than every answered
/// one restarts the deadline, an older one changes nothing but the clock, and one to a challenge that
/// was never sent is a failure. While the session holds, the same is so whatever the deadline says.
pub proof fn law_what_a_reply_is_worth(health: HealthView, token: nat, now: nat)
    requires
        health.failure is None,
        health.last_now <= now,
    ensures
        ({
            let (after, result) = health.replied(token, now);
            let (after_held, result_held) = health.replied_while_held(token, now);
            let fresh = HealthView {
                last_now: now,
                last_acked: token,
                last_response: now,
                confirmed: true,
                ..health
            };
            let late = HealthView { last_now: now, ..health };
            let foreign = HealthView {
                last_now: now,
                failure: Some(HealthError::UnexpectedResponse),
                ..health
            };
            &&& in_time(health, now) ==> (after, result) == (after_held, result_held)
            &&& health.last_acked < token < health.next_token ==> after_held == fresh && result_held
                == Ok::<bool, HealthError>(true)
            &&& token <= health.last_acked && token < health.next_token ==> after_held == late
                && result_held == Ok::<bool, HealthError>(false)
            &&& token >= health.next_token ==> after_held == foreign && result_held == Err::<
                bool,
                _,
            >(HealthError::UnexpectedResponse)
        }),
{
}

/// A challenge goes out with the next number whenever none was sent for an interval, and otherwise
/// nothing does; while the session holds the same is so whatever the deadline says. Only where the
/// numbers are used up there is none.
pub proof fn law_when_a_challenge_goes_out(health: HealthView, now: nat)
    requires
        health.failure is None,
        health.last_now <= now,
    ensures
        ({
            let (after, result) = health.polled_while_held(now);
            let due = health.last_sent is None || now - health.last_sent->0 >= HEARTBEAT_INTERVAL;
            &&& in_time(health, now) ==> health.polled(now) == health.polled_while_held(now)
            &&& !due ==> result == Ok::<Option<nat>, HealthError>(None) && after == (HealthView {
                last_now: now,
                ..health
            })
            &&& due && health.next_token != u64::MAX ==> result == Ok::<Option<nat>, HealthError>(
                Some(health.next_token),
            ) && after == (HealthView {
                last_now: now,
                last_sent: Some(now),
                next_token: health.next_token + 1,
                ..health
            })
            &&& due && health.next_token == u64::MAX ==> result == Err::<Option<nat>, _>(
                HealthError::TokenExhausted,
            ) && after.failure == Some(HealthError::TokenExhausted)
        }),
{
}

/// A lease is as long as it may be: it ends with the deadline, or is the longest there is.
pub proof fn law_a_lease_is_as_long_as_it_may_be(health: HealthView, now: nat)
    requires
        health.wf(),
        in_time(health, now),
    ensures
        health.lease(now) == SUPPRESSION_LEASE_CAP || now + health.lease(now)
            == health.last_response + PEER_LIVENESS,
        health.lease(now) <= SUPPRESSION_LEASE_CAP,
        now + health.lease(now) <= health.last_response + PEER_LIVENESS,
{
}

/// A session can hold whenever nothing but the deadline failed, and resume from there: a hold forgets
/// the failure and every reply that is out, and a resume starts the deadline anew. Neither touches
/// the challenges.
pub proof fn law_a_held_session_can_resume(health: HealthView, now: nat, later: nat)
    requires
        health.wf(),
        health.failure is None || health.failure == Some(HealthError::DeadlineExpired),
        health.last_now <= now <= later,
    ensures
        health.held(now) == (
            HealthView {
                last_now: now,
                failure: None,
                last_acked: (health.next_token - 1) as nat,
                confirmed: false,
                ..health
            },
            Ok::<(), HealthError>(()),
        ),
        health.held(now).0.resumed(later) == (
            HealthView {
                last_now: later,
                last_response: later,
                confirmed: true,
                ..health.held(now).0
            },
            Ok::<(), HealthError>(()),
        ),
{
}

/// The longest hold is the longest one that ended or the one that is under way, whichever is longer.
pub proof fn law_the_longest_hold_is_kept(held_max: nat, held_since: Option<nat>, now: nat)
    requires
        held_since matches Some(since) ==> since <= now,
    ensures
        longest_hold(held_max, held_since, now) >= held_max,
        held_since matches Some(since) ==> longest_hold(held_max, held_since, now) >= now - since,
        longest_hold(held_max, held_since, now) == held_max || held_since is Some && longest_hold(
            held_max,
            held_since,
            now,
        ) == now - held_since->0,
{
}

} // verus!
