use rest_gateway::transport::{CallOutcome, Directive, TransportManager};

#[test]
fn answers_and_backend_failures_are_delivered() {
    let mut manager = TransportManager::new(3);
    assert_eq!(manager.current(), 0);
    assert_eq!(manager.report(0, CallOutcome::Completed), Directive::Deliver);
    assert_eq!(manager.report(0, CallOutcome::ApplicationFailure), Directive::Deliver);
    assert_eq!(manager.report(17, CallOutcome::ApplicationFailure), Directive::Deliver);
    assert_eq!(manager.current(), 0);
    assert!(!manager.is_reconnecting());
}

#[test]
fn one_caller_reconnects_and_the_others_wait() {
    let mut manager = TransportManager::new(3);
    let lease = manager.current();
    assert_eq!(manager.report(lease, CallOutcome::ConnectionFailure), Directive::Reconnect);
    assert!(manager.is_reconnecting());
    assert_eq!(manager.report(lease, CallOutcome::ConnectionFailure), Directive::Wait);
    assert_eq!(manager.report(lease, CallOutcome::ConnectionFailure), Directive::Wait);
    assert_eq!(manager.resume(lease), Directive::Wait);
    assert_eq!(manager.current(), lease);
    assert_eq!(manager.reconnected(true), Directive::Retry);
    assert!(!manager.is_reconnecting());
    assert_eq!(manager.current(), lease + 1);
    assert_eq!(manager.resume(lease), Directive::Retry);
    assert_eq!(manager.report(lease, CallOutcome::ConnectionFailure), Directive::Retry);
    assert!(!manager.is_reconnecting());
}

#[test]
fn attempts_stop_at_the_limit() {
    let mut manager = TransportManager::new(3);
    assert_eq!(manager.report(0, CallOutcome::ConnectionFailure), Directive::Reconnect);
    assert_eq!(manager.reconnected(false), Directive::Reconnect);
    assert_eq!(manager.reconnected(false), Directive::Reconnect);
    assert_eq!(manager.reconnected(false), Directive::GiveUp);
    assert!(!manager.is_reconnecting());
    assert_eq!(manager.current(), 0);
    assert_eq!(manager.resume(0), Directive::GiveUp);
    assert_eq!(manager.report(0, CallOutcome::ConnectionFailure), Directive::Reconnect);
    assert_eq!(manager.reconnected(false), Directive::Reconnect);
    assert_eq!(manager.reconnected(true), Directive::Retry);
    assert_eq!(manager.current(), 1);
}

#[test]
fn a_limit_of_one_or_none() {
    let mut manager = TransportManager::new(1);
    assert_eq!(manager.report(0, CallOutcome::ConnectionFailure), Directive::Reconnect);
    assert_eq!(manager.reconnected(false), Directive::GiveUp);
    let mut manager = TransportManager::new(0);
    assert_eq!(manager.report(0, CallOutcome::ConnectionFailure), Directive::GiveUp);
    assert!(!manager.is_reconnecting());
}

#[test]
fn an_attempt_nobody_asked_for_changes_nothing() {
    let mut manager = TransportManager::new(2);
    assert_eq!(manager.reconnected(true), Directive::Retry);
    assert_eq!(manager.current(), 0);
    assert_eq!(manager.reconnected(false), Directive::Retry);
    assert_eq!(manager.current(), 0);
    assert!(!manager.is_reconnecting());
}
