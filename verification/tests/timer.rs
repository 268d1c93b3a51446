use raft::config::RaftConfig;
use raft::timer::CancellationReason;
use raft::timer::CancellationToken;
use raft::timer::Timer;
use raft::timer::TimerState;

#[test]
fn timer_new_is_uncancelled() {
    let t = Timer::new(250);
    assert_eq!(t.timeout, 250);
    assert!(!t.state.cancelled);
    assert_eq!(t.state.reason, None);
}

#[test]
fn timer_cancel_sets_flag() {
    let mut t = Timer::new(250);
    t.cancel();
    assert!(t.state.cancelled);
    assert_eq!(t.state.reason, Some(CancellationReason::Unknown));
    // Idempotent: cancelling again keeps the flag set.
    t.cancel();
    assert!(t.state.cancelled);
}

#[test]
fn timer_state_cancel_records_reason() {
    let mut s = TimerState { cancelled: false, reason: None };
    s.cancel(CancellationReason::Unknown);
    assert!(s.cancelled);
    assert_eq!(s.reason, Some(CancellationReason::Unknown));
}

#[test]
fn cancellation_token_cancels_shared_state() {
    let mut token = CancellationToken { state: TimerState { cancelled: false, reason: None } };
    token.cancel(CancellationReason::Unknown);
    assert!(token.state.cancelled);
    assert_eq!(token.state.reason, Some(CancellationReason::Unknown));
}

#[test]
fn config_default_values() {
    let c = RaftConfig::default();
    assert_eq!(c.connection_timeout, 10000);
    assert_eq!(c.min_election_timeout, 1000);
    assert_eq!(c.heartbeat_interval, 1000);
}
