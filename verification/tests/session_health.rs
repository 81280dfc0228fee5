use monhop_transport::session_health::{
    hold_stats, HealthError, PeerHealth, HEARTBEAT_INTERVAL, HOLD_LIMIT, PEER_LIVENESS,
    RETREAT_AFTER, SUPPRESSION_LEASE_CAP,
};
use monhop_transport::session_clock::{micros_u64, millis_u64};
use monhop_transport::time::{from_millis, from_secs, Duration, MAX};

fn ms(value: u64) -> Duration {
    from_millis(value)
}

#[test]
fn incoming_traffic_does_not_replace_a_fresh_response() {
    let mut health = PeerHealth::new(ms(0));
    assert_eq!(health.poll(ms(0)), Ok(Some(1)));
    for tick in 1..500 {
        assert_eq!(health.check(ms(tick)), Ok(()));
    }
    assert_eq!(
        health.receive_pong(1, ms(500)),
        Err(HealthError::DeadlineExpired)
    );
    assert_eq!(health.poll(ms(501)), Err(HealthError::DeadlineExpired));
}

#[test]
fn suppression_budget_is_capped_and_shrinks_until_a_fresh_response_arrives() {
    let mut health = PeerHealth::new(ms(0));
    assert_eq!(health.poll(ms(0)), Ok(Some(1)));
    assert_eq!(health.remaining(ms(90)), Ok(SUPPRESSION_LEASE_CAP));
    assert_eq!(health.remaining(ms(390)), Ok(ms(110)));
    health.receive_pong(1, ms(395)).unwrap();
    assert_eq!(health.remaining(ms(400)), Ok(SUPPRESSION_LEASE_CAP));
}

#[test]
fn challenges_keep_flowing_while_unanswered_and_any_new_reply_counts() {
    let mut health = PeerHealth::new(ms(0));
    assert_eq!(health.poll(ms(0)), Ok(Some(1)));
    assert_eq!(health.poll(ms(29)), Ok(None));
    assert_eq!(health.poll(ms(30)), Ok(Some(2)));
    assert_eq!(health.poll(ms(60)), Ok(Some(3)));
    assert_eq!(health.pending_since(), Some(ms(60)));
    assert!(!health.is_confirmed());
    health.receive_pong(1, ms(65)).unwrap();
    assert!(health.is_confirmed());
    assert_eq!(health.pending_since(), Some(ms(60)));
    health.receive_pong(3, ms(70)).unwrap();
    assert_eq!(health.pending_since(), None);
    assert_eq!(health.last_response(), ms(70));
}

#[test]
fn late_replies_earn_nothing_and_unsent_tokens_are_rejected_permanently() {
    let mut health = PeerHealth::new(ms(0));
    assert_eq!(health.poll(ms(0)), Ok(Some(1)));
    assert_eq!(health.poll(ms(30)), Ok(Some(2)));
    health.receive_pong(2, ms(31)).unwrap();
    assert_eq!(health.receive_pong(1, ms(40)), Ok(()));
    assert_eq!(health.last_response(), ms(31));
    assert!(health.is_confirmed());
    assert_eq!(health.poll(ms(60)), Ok(Some(3)));

    let mut health = PeerHealth::new(ms(0));
    assert_eq!(health.poll(ms(0)), Ok(Some(1)));
    assert_eq!(
        health.receive_pong(2, ms(1)),
        Err(HealthError::UnexpectedResponse)
    );
    assert!(!health.is_confirmed());
    assert_eq!(health.poll(ms(60)), Err(HealthError::UnexpectedResponse));
}

#[test]
fn a_lost_reply_costs_one_interval_not_the_session() {
    let mut health = PeerHealth::new(ms(0));
    assert_eq!(health.poll(ms(0)), Ok(Some(1)));
    health.receive_pong(1, ms(5)).unwrap();
    assert_eq!(health.poll(ms(30)), Ok(Some(2)));
    assert_eq!(health.poll(ms(60)), Ok(Some(3)));
    health.receive_pong(3, ms(65)).unwrap();
    assert_eq!(health.check(ms(500)), Ok(()));
    assert_eq!(health.check(ms(565)), Err(HealthError::DeadlineExpired));
}

#[test]
fn a_hold_keeps_tokens_monotonic_and_credits_only_replies_sent_after_it_began() {
    let mut health = PeerHealth::new(ms(0));
    assert_eq!(health.poll(ms(0)), Ok(Some(1)));
    assert_eq!(health.poll(ms(30)), Ok(Some(2)));
    assert_eq!(health.check(ms(500)), Err(HealthError::DeadlineExpired));
    health.hold(ms(500)).unwrap();
    assert_eq!(health.poll_while_held(ms(500)), Ok(Some(3)));
    assert_eq!(health.poll_while_held(ms(510)), Ok(None));
    // A reply delayed from before the stall proves nothing about the link now.
    assert_eq!(health.receive_pong_while_held(2, ms(520)), Ok(false));
    assert!(!health.is_confirmed());
    assert_eq!(health.receive_pong_while_held(3, ms(530)), Ok(true));
    assert!(health.is_confirmed());
    assert_eq!(
        health.receive_pong_while_held(9, ms(531)),
        Err(HealthError::UnexpectedResponse)
    );
    assert_eq!(
        health.poll_while_held(ms(540)),
        Err(HealthError::UnexpectedResponse)
    );
}

#[test]
fn resume_restarts_the_deadline_and_a_second_stall_holds_again() {
    let mut health = PeerHealth::new(ms(0));
    assert_eq!(health.check(ms(500)), Err(HealthError::DeadlineExpired));
    health.hold(ms(500)).unwrap();
    assert_eq!(health.poll_while_held(ms(2_000)), Ok(Some(1)));
    health.resume(ms(2_100)).unwrap();
    assert_eq!(health.remaining(ms(2_500)), Ok(ms(100)));
    assert_eq!(health.check(ms(2_599)), Ok(()));
    assert_eq!(health.check(ms(2_600)), Err(HealthError::DeadlineExpired));
    health.hold(ms(2_600)).unwrap();
    assert_eq!(health.poll_while_held(ms(2_600)), Ok(Some(2)));
    assert_eq!(health.hold(ms(2_599)), Err(HealthError::ClockRegression));
}

#[test]
fn the_retreat_leaves_the_full_lease_cap_before_the_deadline() {
    assert_eq!(RETREAT_AFTER + SUPPRESSION_LEASE_CAP, PEER_LIVENESS);
    assert!(HOLD_LIMIT < from_secs(10));
}

#[test]
fn clock_regression_is_permanent_even_after_a_valid_reply() {
    let mut health = PeerHealth::new(ms(100));
    health.poll(ms(100)).unwrap();
    health.receive_pong(1, ms(101)).unwrap();
    assert_eq!(health.poll(ms(100)), Err(HealthError::ClockRegression));
    assert_eq!(health.poll(ms(102)), Err(HealthError::ClockRegression));
}

#[test]
fn an_oversized_duration_saturates_instead_of_wrapping() {
    assert_eq!(millis_u64(from_millis(1_500)), 1_500);
    assert_eq!(micros_u64(from_millis(2)), 2_000);
    assert_eq!(millis_u64(MAX), u64::MAX);
    assert_eq!(micros_u64(MAX), u64::MAX);
}

#[test]
fn the_first_failure_stays() {
    let mut health = PeerHealth::new(ms(100));
    assert_eq!(health.check(ms(99)), Err(HealthError::ClockRegression));
    assert_eq!(health.verdict(ms(5_000)), Err(HealthError::ClockRegression));
    assert_eq!(health.hold(ms(5_000)), Err(HealthError::ClockRegression));
    assert_eq!(health.resume(ms(5_000)), Err(HealthError::ClockRegression));
    assert!(!health.is_confirmed());
}

#[test]
fn a_verdict_leaves_the_health_as_it_is() {
    let mut health = PeerHealth::new(ms(0));
    assert_eq!(health.verdict(ms(500)), Err(HealthError::DeadlineExpired));
    assert_eq!(health.poll(ms(499)), Ok(Some(1)));
    assert_eq!(health.verdict(ms(499)), Ok(()));
    assert_eq!(health.pending_since(), Some(ms(499)));
}

#[test]
fn challenges_are_an_interval_apart() {
    let mut health = PeerHealth::new(0);
    assert_eq!(health.poll(0), Ok(Some(1)));
    assert_eq!(health.poll(HEARTBEAT_INTERVAL - 1), Ok(None));
    assert_eq!(health.poll(HEARTBEAT_INTERVAL), Ok(Some(2)));
}

#[test]
fn a_running_hold_counts_into_the_longest_one() {
    assert_eq!(hold_stats(2, ms(40), None, ms(900)), (2, ms(40)));
    assert_eq!(hold_stats(2, ms(40), Some(ms(800)), ms(900)), (2, ms(100)));
    assert_eq!(hold_stats(2, ms(40), Some(ms(890)), ms(900)), (2, ms(40)));
}
