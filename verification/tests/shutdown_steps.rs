use pwmd::bootstrap::{host_worker_counts, node_instance_id, validator_hash};
use pwmd::shutdown::{shutdown_first_request, shutdown_skip_reason, ShutdownReason};

#[test]
fn shutdown_request_sets_guard() {
    let mut requested = false;
    assert!(shutdown_first_request(&mut requested));
    assert!(requested);
    assert!(!shutdown_first_request(&mut requested));
    assert!(requested);
}

#[test]
fn shutdown_skip_when_loading_snapshot() {
    assert_eq!(shutdown_skip_reason(true, 5, Some(5)), Some("loading_snapshot"));
    assert_eq!(shutdown_skip_reason(true, 5, None), Some("loading_snapshot"));
}

#[test]
fn shutdown_skip_checkpoint_regress() {
    assert_eq!(shutdown_skip_reason(false, 5, Some(124_061)), Some("checkpoint_regress"));
    assert_eq!(shutdown_skip_reason(false, 124_061, Some(124_061)), None);
    assert_eq!(shutdown_skip_reason(false, 5, None), None);
}

#[test]
fn shutdown_reason_keys() {
    assert_eq!(ShutdownReason::Rpc.key(), "rpc");
    assert_eq!(ShutdownReason::Signal("sigterm").key(), "sigterm");
    assert_eq!(ShutdownReason::DebugStop.key(), "debug_stop");
}

#[test]
fn bootstrap_identifiers() {
    assert_eq!(node_instance_id("node-a", 4242, 1_700_000_000_123), "node-a-4242-1700000000123");
    assert_eq!(validator_hash(Some(&[0x0f; 32])), "0f".repeat(32));
    assert_eq!(validator_hash(None), "unknown-validator");
    assert_eq!(host_worker_counts(None), (1, 1));
    assert_eq!(host_worker_counts(Some(16)), (1, 14));
}
