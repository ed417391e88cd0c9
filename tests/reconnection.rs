use signalr_client::reconnection::{
    policy_retry_step, AttemptOutcome, DisconnectionReason, ManualStart, LinkState, ReconnectAction, ReconnectEvent, ReconnectMode, Reconnector,
    RetryStep,
};
use signalr_client::{ConstantDelayPolicy, LinearBackoffPolicy, NoReconnectPolicy, ReconnectionPolicy};

#[test]
fn no_reconnect_policy_gives_up() {
    assert_eq!(NoReconnectPolicy.next_retry_delay(0, 0), None);
}

#[test]
fn constant_policy_until_max_attempts() {
    let p = ConstantDelayPolicy::new(250, Some(3));
    assert_eq!(p.next_retry_delay(0, 0), Some(250));
    assert_eq!(p.next_retry_delay(2, 1000), Some(250));
    assert_eq!(p.next_retry_delay(3, 1000), None);
    let unbounded = ConstantDelayPolicy::new(10, None);
    assert_eq!(unbounded.next_retry_delay(1_000_000, 0), Some(10));
}

#[test]
fn linear_policy_grows_and_caps() {
    let p = LinearBackoffPolicy::new(100, 50, Some(300), Some(10));
    assert_eq!(p.next_retry_delay(0, 0), Some(100));
    assert_eq!(p.next_retry_delay(2, 0), Some(200));
    assert_eq!(p.next_retry_delay(5, 0), Some(300));
    assert_eq!(p.next_retry_delay(10, 0), None);
    let huge = LinearBackoffPolicy::new(u64::MAX, u64::MAX, None, None);
    assert_eq!(huge.next_retry_delay(u32::MAX, 0), Some(u64::MAX));
}

#[test]
fn automatic_reconnect_retries_then_promotes() {
    let mut r = Reconnector::new(false);
    assert!(r.is_connected());
    assert_eq!(r.step(ReconnectEvent::ConnectionDropped), ReconnectAction::AskPolicy(0));
    assert_eq!(r.state, LinkState::NotConnected(DisconnectionReason::Reconnecting));
    assert_eq!(r.step(ReconnectEvent::PolicyAnswered(Some(100))), ReconnectAction::SleepThenAttempt(100));
    assert_eq!(r.step(ReconnectEvent::AttemptFailed), ReconnectAction::AskPolicy(1));
    assert_eq!(r.step(ReconnectEvent::PolicyAnswered(Some(200))), ReconnectAction::SleepThenAttempt(200));
    assert_eq!(r.step(ReconnectEvent::AttemptSucceeded), ReconnectAction::Promote);
    assert!(r.is_connected());
    assert_eq!(r.mode, ReconnectMode::Automatic);
}

#[test]
fn automatic_reconnect_gives_up_when_policy_does() {
    let mut r = Reconnector::new(false);
    r.step(ReconnectEvent::ConnectionDropped);
    assert_eq!(r.step(ReconnectEvent::PolicyAnswered(None)), ReconnectAction::GiveUp);
    assert_eq!(r.state, LinkState::NotConnected(DisconnectionReason::RemoteClosed));
}

#[test]
fn manual_mode_hands_control_to_the_user() {
    let mut r = Reconnector::new(true);
    assert_eq!(r.step(ReconnectEvent::ConnectionDropped), ReconnectAction::HandToUser);
    assert_eq!(r.state, LinkState::NotConnected(DisconnectionReason::RemoteClosed));
    assert_eq!(r.begin_manual_reconnect(), ManualStart::Attempt);
    assert_eq!(r.finish_manual_reconnect(true), AttemptOutcome::Succeeded);
    assert!(r.is_connected());
    assert_eq!(r.begin_manual_reconnect(), ManualStart::AlreadyConnected);
    assert_eq!(r.step(ReconnectEvent::ConnectionDropped), ReconnectAction::Nothing);
    assert!(!r.is_connected());
}

#[test]
fn local_disconnect_is_terminal() {
    let mut r = Reconnector::new(false);
    assert_eq!(r.step(ReconnectEvent::LocalDisconnect), ReconnectAction::Shutdown);
    assert_eq!(r.step(ReconnectEvent::ConnectionDropped), ReconnectAction::Nothing);
    assert_eq!(r.begin_manual_reconnect(), ManualStart::LocallyClosed);
    assert_eq!(r.finish_manual_reconnect(true), AttemptOutcome::LocallyClosed);
    assert_eq!(r.step(ReconnectEvent::AttemptSucceeded), ReconnectAction::Discard);
}

#[test]
fn retry_loop_steps() {
    assert_eq!(policy_retry_step(0, None, Some(100)), RetryStep::AttemptNow);
    assert_eq!(policy_retry_step(1, Some(AttemptOutcome::Failed), Some(100)), RetryStep::SleepThenAttempt(100));
    assert_eq!(policy_retry_step(4, Some(AttemptOutcome::Failed), None), RetryStep::Exhausted);
    assert_eq!(policy_retry_step(2, Some(AttemptOutcome::Succeeded), None), RetryStep::Finished);
    assert_eq!(policy_retry_step(2, Some(AttemptOutcome::LocallyClosed), Some(5)), RetryStep::Aborted);
}

#[test]
fn manual_attempt_failure_leaves_remote_closed() {
    let mut r = Reconnector::new(true);
    r.step(ReconnectEvent::ConnectionDropped);
    assert_eq!(r.begin_manual_reconnect(), ManualStart::Attempt);
    assert_eq!(r.finish_manual_reconnect(false), AttemptOutcome::Failed);
    assert_eq!(r.state, LinkState::NotConnected(DisconnectionReason::RemoteClosed));
}
