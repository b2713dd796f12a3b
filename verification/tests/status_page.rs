use pwmd::handshake::{DeploymentProfile, SealRole};
use pwmd::identity::{RuntimeIdentity, RuntimeIdentityMode};
use pwmd::lease::{LeaseRuntime, LeaseStats};
use pwmd::lease_backend::LeaseBackendMode;
use pwmd::ledger::CrossShardLedger;
use pwmd::roaming::{IntentStatus, RoamingIntent};
use pwmd::status::{
    peer_relay_health, roaming_relay_hint, status_out, BridgeObs, ClusterPrepOut,
    GenesisMismatchObs, GuardObs, InitObs, NodeObs, PeerObs, RelayInfo, StatusOut,
};

fn identity() -> RuntimeIdentity {
    RuntimeIdentity {
        network_id: "pwm-devnet".to_string(),
        cluster_domain_hi: 0x10,
        cluster_id: "cy".to_string(),
        node_id: "node-1".to_string(),
        mode: RuntimeIdentityMode::Neutral,
    }
}

fn node() -> NodeObs {
    NodeObs {
        shard: "cy:0x10".to_string(),
        state_namespace: "pwm-devnet".to_string(),
        deployment_profile: DeploymentProfile::SingleSealer,
        seal_role: SealRole::Standby,
        lease_mode: LeaseBackendMode::ProcessLocal,
        lease_path: None,
        lease_last_backend_error: None,
        validator_identity_hash: "vh-status".to_string(),
        node_instance_id: "inst-status".to_string(),
    }
}

fn init() -> InitObs {
    InitObs { phase: "ready", ready: true, snapshot_file: None, snapshot_error: None }
}

fn intent(status: IntentStatus, created_height: u64) -> RoamingIntent {
    RoamingIntent {
        intent_id: [1; 32],
        export_id: [2; 32],
        source: [3; 32],
        to: [4; 32],
        target_domain: 0x2001,
        amount: 5,
        fee: 0,
        status,
        created_height,
        expires_at_height: created_height + 10,
        last_error: None,
    }
}

fn bridge() -> BridgeObs {
    BridgeObs {
        tip_h: 20,
        exported_registry_size: 3,
        imported_set_size: 1,
        intents: vec![intent(IntentStatus::Exported, 12), intent(IntentStatus::Imported, 2)],
        active_locks: 1,
        last_readiness_reject: Some(("readiness_expired", "request a new readiness grant")),
    }
}

fn peers(seed_count: u64, trusted: u64) -> PeerObs {
    PeerObs {
        seed_count,
        listen: "0.0.0.0:4040".to_string(),
        live_peer_count: trusted,
        trusted_relay_peer_count: trusted,
        session_connected_total: 4,
        session_retrying_total: 1,
        session_disconnected_total: 2,
        session_untrusted_total: 0,
        session_trusted_total: 3,
        next_seed_due_ms: Some(500),
        last_peer_error: None,
        peer_error_at_ms: None,
    }
}

fn guard(blocked: bool) -> GuardObs {
    GuardObs {
        expected_genesis_hash: Some("ab".to_string()),
        genesis_blocked: blocked,
        bridge_refused: false,
        bridge_refusal_reason: None,
        mismatch_total: if blocked { 1 } else { 0 },
        last_mismatch: if blocked {
            Some(GenesisMismatchObs {
                expected_hash: Some("ab".to_string()),
                received_hash: Some("cd".to_string()),
                peer_node_id: "node-9".to_string(),
                peer_hint: "10.0.0.9:4040".to_string(),
                at_unix_ms: 77,
            })
        } else {
            None
        },
    }
}

fn relay() -> RelayInfo {
    RelayInfo {
        relay_mode: "peer_relay",
        genesis_fetch_status: "disabled",
        genesis_fetch_hint: "genesis is read from the local bundle",
    }
}

fn prep() -> ClusterPrepOut {
    ClusterPrepOut {
        phase: "ready",
        ready_for_seal: true,
        sync_n: 1,
        live_n: 1,
        peer_tip_max: 20,
        local_tip: 20,
        blocks_behind_max: 0,
        waiting_since_ms: None,
        waiting_sec: None,
        blocked_reason: None,
    }
}

fn status(lease: Option<&LeaseRuntime>, blocked: bool, seeds: u64, trusted: u64) -> StatusOut {
    status_out(
        &identity(),
        &node(),
        &init(),
        &bridge(),
        CrossShardLedger::new().summary(),
        &peers(seeds, trusted),
        &guard(blocked),
        relay(),
        prep(),
        lease,
        LeaseStats::default().snapshot(),
    )
}

#[test]
fn status_exposes_identity_signals() {
    let rt = LeaseRuntime::new("inst-status".to_string());
    let out = status(Some(&rt), false, 1, 1);
    assert_eq!(out.deployment_profile, "single_sealer");
    assert_eq!(out.seal_role, "standby");
    assert_eq!(out.lease_backend_mode, "process_local");
    assert_eq!(out.validator_identity_hash, "vh-status");
    assert_eq!(out.node_instance_id, "inst-status");
}

#[test]
fn status_bridge_and_stuck_counters() {
    let rt = LeaseRuntime::new("inst-status".to_string());
    let out = status(Some(&rt), false, 1, 1);
    assert_eq!(out.bridge_exported_registry_size, Some(3));
    assert_eq!(out.bridge_imported_set_size, Some(1));
    assert_eq!(out.bridge_registered_without_import, 2);
    assert_eq!(out.roaming_intent_pool_size, Some(2));
    assert_eq!(out.roaming_active_locks_size, Some(1));
    assert_eq!(out.stuck_exported_without_finalize, 1);
    assert_eq!(out.stuck_relayed_without_import, 0);
    assert_eq!(out.oldest_stuck_age_blocks, Some(8));
    assert_eq!(out.last_readiness_reject_code, Some("readiness_expired"));
    assert_eq!(out.last_readiness_reject_hint, Some("request a new readiness grant"));
    assert_eq!(out.cross_shard_summary.total_exported_count, 0);
    assert_eq!(
        out.balance_semantics,
        "split:v1(local_state_balance,authoritative_home_balance,spendable_on_this_shard)"
    );
}

#[test]
fn status_relay_health_cases() {
    assert_eq!(peer_relay_health(0, 0), "not_configured");
    assert_eq!(peer_relay_health(2, 0), "no_trusted_seed");
    assert_eq!(peer_relay_health(2, 1), "ok");
    assert!(roaming_relay_hint(0, 0).starts_with("Configure --transport-peer-seed"));
    assert!(roaming_relay_hint(1, 0).starts_with("Relay has no live trusted seed peer yet"));
    assert!(roaming_relay_hint(1, 1).starts_with("Source RPC relays cross-shard"));
    let rt = LeaseRuntime::new("x".to_string());
    let out = status(Some(&rt), false, 2, 0);
    assert_eq!(out.peer_relay_health, "no_trusted_seed");
    assert_eq!(out.peer_seed_count, 2);
    assert_eq!(out.peer_listen, "0.0.0.0:4040");
}

#[test]
fn status_genesis_guard_blocked() {
    let rt = LeaseRuntime::new("x".to_string());
    let out = status(Some(&rt), true, 1, 1);
    assert_eq!(out.genesis_guard, "blocked");
    assert!(out
        .genesis_guard_recovery_hint
        .unwrap()
        .starts_with("Genesis mismatch detected"));
    assert_eq!(out.genesis_mismatch_total, 1);
    assert_eq!(out.genesis_mismatch_received_hash, Some("cd".to_string()));
    assert_eq!(out.genesis_mismatch_peer_id, Some("node-9".to_string()));
    assert_eq!(out.genesis_mismatch_unix_ms, Some(77));
    let ok = status(Some(&rt), false, 1, 1);
    assert_eq!(ok.genesis_guard, "ok");
    assert_eq!(ok.genesis_guard_recovery_hint, None);
    assert_eq!(ok.genesis_mismatch_peer_id, None);
}

#[test]
fn status_unreadable_lease_shows_fenced() {
    let out = status(None, false, 1, 1);
    assert_eq!(out.lease_state, "fenced_standby");
    assert!(!out.seal_gate_allowed);
    assert_eq!(out.lease_owner_id, "unknown");
    assert_eq!(out.lease_last_reason, "lease_runtime_poisoned");
    let rt = LeaseRuntime::new("inst-7".to_string());
    let out = status(Some(&rt), false, 1, 1);
    assert_eq!(out.lease_state, "standby_syncing");
    assert_eq!(out.lease_owner_id, "inst-7");
    assert_eq!(out.lease_last_reason, "lease_not_acquired");
}
