//! The node status page (`GET /v1/status`): what the node observes of its
//! init state, bridge, peers, genesis guard and lease, and the verified
//! assembly of the answer from those observations.

use crate::api::{cross_shard_summary_out, lease_state_label, CrossShardSummaryOut};
use crate::handshake::{DeploymentProfile, SealRole};
use crate::identity::RuntimeIdentity;
use crate::lease::{LeaseRuntime, LeaseStatsOut};
use crate::lease_backend::LeaseBackendMode;
use crate::ledger::CrossShardSummary;
use crate::roaming::{count_status, oldest_stuck_age, stuck_intents, IntentStatus, RoamingIntent};
use vstd::prelude::*;
use vstd::string::*;

verus! {

// ---------------------------------------------------------------------------
// Observations
// ---------------------------------------------------------------------------

/// Startup phase of the node and its snapshot.
#[derive(Clone, Debug)]
pub struct InitObs {
    pub phase: &'static str,
    pub ready: bool,
    pub snapshot_file: Option<String>,
    pub snapshot_error: Option<String>,
}

/// Bridge state: registry sizes, the roaming pool
/// at tip height `tip_h`, and the last readiness refusal (code and hint).
#[derive(Clone, Debug)]
pub struct BridgeObs {
    pub tip_h: u64,
    pub exported_registry_size: u64,
    pub imported_set_size: u64,
    pub intents: Vec<RoamingIntent>,
    pub active_locks: u64,
    pub last_readiness_reject: Option<(&'static str, &'static str)>,
}

/// Peer transport state.
#[derive(Clone, Debug)]
pub struct PeerObs {
    pub seed_count: u64,
    pub listen: String,
    pub live_peer_count: u64,
    pub trusted_relay_peer_count: u64,
    pub session_connected_total: u64,
    pub session_retrying_total: u64,
    pub session_disconnected_total: u64,
    pub session_untrusted_total: u64,
    pub session_trusted_total: u64,
    pub next_seed_due_ms: Option<u64>,
    pub last_peer_error: Option<String>,
    pub peer_error_at_ms: Option<u64>,
}

/// The last genesis mismatch a peer showed.
#[derive(Clone, Debug)]
pub struct GenesisMismatchObs {
    pub expected_hash: Option<String>,
    pub received_hash: Option<String>,
    pub peer_node_id: String,
    pub peer_hint: String,
    pub at_unix_ms: u64,
}

/// Genesis guard and bridge-trust state.
#[derive(Clone, Debug)]
pub struct GuardObs {
    pub expected_genesis_hash: Option<String>,
    pub genesis_blocked: bool,
    pub bridge_refused: bool,
    pub bridge_refusal_reason: Option<String>,
    pub mismatch_total: u64,
    pub last_mismatch: Option<GenesisMismatchObs>,
}

/// This node's deployment and lease identity.
#[derive(Clone, Debug)]
pub struct NodeObs {
    pub shard: String,
    pub state_namespace: String,
    pub deployment_profile: DeploymentProfile,
    pub seal_role: SealRole,
    pub lease_mode: LeaseBackendMode,
    pub lease_path: Option<String>,
    pub lease_last_backend_error: Option<String>,
    pub validator_identity_hash: String,
    pub node_instance_id: String,
}

/// The relay module's fixed answers: its mode and genesis-fetch status and hint.
#[derive(Clone, Copy, Debug)]
pub struct RelayInfo {
    pub relay_mode: &'static str,
    pub genesis_fetch_status: &'static str,
    pub genesis_fetch_hint: &'static str,
}

// ---------------------------------------------------------------------------
// The answer
// ---------------------------------------------------------------------------

/// Cluster preparation state as served.
#[derive(Clone, Debug)]
pub struct ClusterPrepOut {
    pub phase: &'static str,
    pub ready_for_seal: bool,
    pub sync_n: u64,
    pub live_n: u64,
    pub peer_tip_max: u64,
    pub local_tip: u64,
    pub blocks_behind_max: u64,
    pub waiting_since_ms: Option<u64>,
    pub waiting_sec: Option<u64>,
    pub blocked_reason: Option<&'static str>,
}

/// Answer of `GET /v1/status`.
pub struct StatusOut {
    pub phase: &'static str,
    pub ready: bool,
    pub shard: String,
    pub state_namespace: String,
    pub network_id: String,
    pub snapshot_file: Option<String>,
    pub snapshot_error: Option<String>,
    pub cluster_domain_hi: u8,
    pub bridge_exported_registry_size: Option<u64>,
    pub bridge_imported_set_size: Option<u64>,
    pub bridge_registered_without_import: u64,
    pub cross_shard_summary: CrossShardSummaryOut,
    pub roaming_intent_pool_size: Option<u64>,
    pub roaming_active_locks_size: Option<u64>,
    pub stuck_exported_without_finalize: u64,
    pub stuck_relayed_without_import: u64,
    pub oldest_stuck_age_blocks: Option<u64>,
    pub roaming_relay_mode: &'static str,
    pub roaming_relay_hint: String,
    pub peer_seed_count: u64,
    pub peer_listen: String,
    pub live_peer_count: u64,
    pub trusted_relay_peer_count: u64,
    pub peer_session_connected_total: u64,
    pub peer_session_retrying_total: u64,
    pub peer_session_disconnected_total: u64,
    pub peer_session_untrusted_total: u64,
    pub peer_session_trusted_total: u64,
    pub peer_relay_health: &'static str,
    pub next_seed_due_ms: Option<u64>,
    pub last_peer_error: Option<String>,
    pub peer_error_at_ms: Option<u64>,
    pub genesis_fetch_status: &'static str,
    pub genesis_fetch_hint: &'static str,
    pub last_readiness_reject_code: Option<&'static str>,
    pub last_readiness_reject_hint: Option<&'static str>,
    pub balance_semantics: &'static str,
    pub effective_genesis_hash: Option<String>,
    pub genesis_guard: &'static str,
    pub bridge_federation_trust: &'static str,
    pub bridge_refusal_reason: Option<String>,
    pub genesis_mismatch_total: u64,
    pub genesis_mismatch_expected_hash: Option<String>,
    pub genesis_mismatch_received_hash: Option<String>,
    pub genesis_mismatch_peer_id: Option<String>,
    pub genesis_mismatch_peer_hint: Option<String>,
    pub genesis_mismatch_unix_ms: Option<u64>,
    pub genesis_guard_recovery_hint: Option<&'static str>,
    pub cluster_id: String,
    pub node_id: String,
    pub deployment_profile: String,
    pub seal_role: String,
    pub lease_backend_mode: String,
    pub lease_backend_path: Option<String>,
    pub lease_last_backend_error: Option<String>,
    pub validator_identity_hash: String,
    pub node_instance_id: String,
    pub cluster_prep: ClusterPrepOut,
    pub lease_state: String,
    pub seal_gate_allowed: bool,
    pub lease_owner_id: String,
    pub lease_term: u64,
    pub lease_expires_at_ms: u64,
    pub lease_last_tip: u64,
    pub lease_fence: u64,
    pub lease_last_reason: String,
    pub lease_acquire_ok: u64,
    pub lease_renew_ok: u64,
    pub lease_loss_total: u64,
    pub lease_reject_total: u64,
    pub lease_takeover_ok: u64,
}

// ---------------------------------------------------------------------------
// Derived fields
// ---------------------------------------------------------------------------

/// Relay health: no seed configured, no trusted seed yet, or fine.
pub open spec fn relay_health(seed_count: u64, trusted: u64) -> Seq<char> {
    if seed_count == 0 {
        "not_configured"@
    } else if trusted == 0 {
        "no_trusted_seed"@
    } else {
        "ok"@
    }
}

/// Relay health label.
pub fn peer_relay_health(seed_count: u64, trusted: u64) -> (r: &'static str)
    ensures
        r@ == relay_health(seed_count, trusted),
{
    if seed_count == 0 {
        "not_configured"
    } else if trusted == 0 {
        "no_trusted_seed"
    } else {
        "ok"
    }
}

/// Operator hint on cross-shard relay, by the same three cases.
pub open spec fn relay_hint(seed_count: u64, trusted: u64) -> Seq<char> {
    if seed_count == 0 {
        "Configure --transport-peer-seed for one-window cross-shard relay; manual commands remain fallback."@
    } else if trusted == 0 {
        "Relay has no live trusted seed peer yet; check peer socket/session health and seed trust alignment."@
    } else {
        "Source RPC relays cross-shard handoff/import through live trusted seed peer context."@
    }
}

/// Operator hint on cross-shard relay.
pub fn roaming_relay_hint(seed_count: u64, trusted: u64) -> (r: String)
    ensures
        r@ == relay_hint(seed_count, trusted),
{
    if seed_count == 0 {
        String::from_str(
            "Configure --transport-peer-seed for one-window cross-shard relay; manual commands remain fallback.",
        )
    } else if trusted == 0 {
        String::from_str(
            "Relay has no live trusted seed peer yet; check peer socket/session health and seed trust alignment.",
        )
    } else {
        String::from_str(
            "Source RPC relays cross-shard handoff/import through live trusted seed peer context.",
        )
    }
}

/// Hint shown while the genesis guard blocks.
pub open spec fn genesis_recovery_hint() -> Seq<char> {
    "Genesis mismatch detected: stop node, fix genesis bundle/hash alignment, then restart to re-verify before user tx."@
}

pub open spec fn profile_label(p: DeploymentProfile) -> Seq<char> {
    match p {
        DeploymentProfile::SingleSealer => "single_sealer"@,
        DeploymentProfile::MultiSealerExperimental => "multi_sealer_experimental"@,
    }
}

pub open spec fn role_label(r: SealRole) -> Seq<char> {
    match r {
        SealRole::Active => "active"@,
        SealRole::Standby => "standby"@,
    }
}

pub open spec fn lease_mode_label(m: LeaseBackendMode) -> Seq<char> {
    match m {
        LeaseBackendMode::File => "file"@,
        LeaseBackendMode::ProcessLocal => "process_local"@,
    }
}

/// Balance semantics the account answers follow.
pub open spec fn balance_semantics() -> Seq<char> {
    "split:v1(local_state_balance,authoritative_home_balance,spendable_on_this_shard)"@
}

fn label_string(s: &'static str) -> (r: String)
    ensures
        r@ == s@,
{
    String::from_str(s)
}

fn opt_clone(o: &Option<String>) -> (r: Option<String>)
    ensures
        r == *o,
{
    match o {
        Some(s) => Some(s.clone()),
        None => None,
    }
}

/// Builds the status answer from the node's observations. The lease
/// runtime is `None` when it cannot be read; the answer then shows a
/// fenced standby with no owner.
pub fn status_out(
    identity: &RuntimeIdentity,
    node: &NodeObs,
    init: &InitObs,
    bridge: &BridgeObs,
    summary: CrossShardSummary,
    peers: &PeerObs,
    guard: &GuardObs,
    relay: RelayInfo,
    cluster_prep: ClusterPrepOut,
    lease: Option<&LeaseRuntime>,
    lease_stats: LeaseStatsOut,
) -> (r: StatusOut)
    ensures
        r.phase == init.phase,
        r.ready == init.ready,
        r.shard@ == node.shard@,
        r.state_namespace@ == node.state_namespace@,
        r.network_id@ == identity.network_id@,
        r.snapshot_file == init.snapshot_file,
        r.snapshot_error == init.snapshot_error,
        r.cluster_domain_hi == identity.cluster_domain_hi,
        r.bridge_exported_registry_size == Some(bridge.exported_registry_size),
        r.bridge_imported_set_size == Some(bridge.imported_set_size),
        r.bridge_registered_without_import == (if bridge.exported_registry_size
            >= bridge.imported_set_size {
            (bridge.exported_registry_size - bridge.imported_set_size) as u64
        } else {
            0
        }),
        r.cross_shard_summary.scope == summary.scope,
        r.cross_shard_summary.total_exported_amount == summary.total_exported_amount,
        r.cross_shard_summary.total_exported_count == summary.total_exported_count,
        r.cross_shard_summary.total_imported_amount == summary.total_imported_amount,
        r.cross_shard_summary.total_imported_count == summary.total_imported_count,
        r.cross_shard_summary.pending_count == summary.pending_count,
        r.cross_shard_summary.trusted_peer_observed_count == summary.trusted_peer_observed_count,
        r.cross_shard_summary.by_domain_hi@.len() == summary.by_domain_hi@.len(),
        forall|i: int|
            0 <= i < r.cross_shard_summary.by_domain_hi@.len() ==> crate::api::domain_out_matches(
                #[trigger] r.cross_shard_summary.by_domain_hi@[i],
                summary.by_domain_hi@[i],
            ),
        r.roaming_intent_pool_size == Some(bridge.intents@.len() as u64),
        r.roaming_active_locks_size == Some(bridge.active_locks),
        r.stuck_exported_without_finalize == count_status(bridge.intents@, IntentStatus::Exported),
        r.stuck_relayed_without_import == count_status(bridge.intents@, IntentStatus::Relayed),
        r.oldest_stuck_age_blocks == oldest_stuck_age(bridge.tip_h, bridge.intents@),
        r.roaming_relay_mode == relay.relay_mode,
        r.roaming_relay_hint@ == relay_hint(peers.seed_count, peers.trusted_relay_peer_count),
        r.peer_seed_count == peers.seed_count,
        r.peer_listen@ == peers.listen@,
        r.live_peer_count == peers.live_peer_count,
        r.trusted_relay_peer_count == peers.trusted_relay_peer_count,
        r.peer_session_connected_total == peers.session_connected_total,
        r.peer_session_retrying_total == peers.session_retrying_total,
        r.peer_session_disconnected_total == peers.session_disconnected_total,
        r.peer_session_untrusted_total == peers.session_untrusted_total,
        r.peer_session_trusted_total == peers.session_trusted_total,
        r.peer_relay_health@ == relay_health(peers.seed_count, peers.trusted_relay_peer_count),
        r.next_seed_due_ms == peers.next_seed_due_ms,
        r.last_peer_error == peers.last_peer_error,
        r.peer_error_at_ms == peers.peer_error_at_ms,
        r.genesis_fetch_status == relay.genesis_fetch_status,
        r.genesis_fetch_hint == relay.genesis_fetch_hint,
        r.last_readiness_reject_code == (match bridge.last_readiness_reject {
            Some(x) => Some(x.0),
            None => None,
        }),
        r.last_readiness_reject_hint == (match bridge.last_readiness_reject {
            Some(x) => Some(x.1),
            None => None,
        }),
        r.balance_semantics@ == balance_semantics(),
        r.effective_genesis_hash == guard.expected_genesis_hash,
        r.genesis_guard@ == (if guard.genesis_blocked {
            "blocked"@
        } else {
            "ok"@
        }),
        r.bridge_federation_trust@ == (if guard.bridge_refused {
            "bridge_federation_trust_refused"@
        } else {
            "ok"@
        }),
        r.bridge_refusal_reason == guard.bridge_refusal_reason,
        r.genesis_mismatch_total == guard.mismatch_total,
        r.genesis_mismatch_expected_hash == (match guard.last_mismatch {
            Some(m) => m.expected_hash,
            None => None,
        }),
        r.genesis_mismatch_received_hash == (match guard.last_mismatch {
            Some(m) => m.received_hash,
            None => None,
        }),
        r.genesis_mismatch_peer_id == (match guard.last_mismatch {
            Some(m) => Some(m.peer_node_id),
            None => None,
        }),
        r.genesis_mismatch_peer_hint == (match guard.last_mismatch {
            Some(m) => Some(m.peer_hint),
            None => None,
        }),
        r.genesis_mismatch_unix_ms == (match guard.last_mismatch {
            Some(m) => Some(m.at_unix_ms),
            None => None,
        }),
        guard.genesis_blocked ==> (r.genesis_guard_recovery_hint matches Some(h) && h@
            == genesis_recovery_hint()),
        !guard.genesis_blocked ==> r.genesis_guard_recovery_hint is None,
        r.cluster_id@ == identity.cluster_id@,
        r.node_id@ == identity.node_id@,
        r.deployment_profile@ == profile_label(node.deployment_profile),
        r.seal_role@ == role_label(node.seal_role),
        r.lease_backend_mode@ == lease_mode_label(node.lease_mode),
        r.lease_backend_path == node.lease_path,
        r.lease_last_backend_error == node.lease_last_backend_error,
        r.validator_identity_hash@ == node.validator_identity_hash@,
        r.node_instance_id@ == node.node_instance_id@,
        r.cluster_prep.phase == cluster_prep.phase,
        r.cluster_prep.ready_for_seal == cluster_prep.ready_for_seal,
        match lease {
            Some(rt) => {
                &&& r.lease_state@ == lease_state_label(rt.state)
                &&& r.seal_gate_allowed == rt.allow_seal
                &&& r.lease_owner_id@ == rt.owner_id@
                &&& r.lease_term == rt.term
                &&& r.lease_expires_at_ms == rt.expires_at_ms
                &&& r.lease_last_tip == rt.last_tip
                &&& r.lease_fence == rt.fence
                &&& r.lease_last_reason@ == rt.last_reason@
            },
            None => {
                &&& r.lease_state@ == "fenced_standby"@
                &&& !r.seal_gate_allowed
                &&& r.lease_owner_id@ == "unknown"@
                &&& r.lease_term == 0
                &&& r.lease_expires_at_ms == 0
                &&& r.lease_last_tip == 0
                &&& r.lease_fence == 0
                &&& r.lease_last_reason@ == "lease_runtime_poisoned"@
            },
        },
        r.lease_acquire_ok == lease_stats.acquire_ok,
        r.lease_renew_ok == lease_stats.renew_ok,
        r.lease_loss_total == lease_stats.loss_total,
        r.lease_reject_total == lease_stats.reject_total,
        r.lease_takeover_ok == lease_stats.takeover_ok,
{
    let stuck = stuck_intents(bridge.tip_h, &bridge.intents);
    let registered_without_import = if bridge.exported_registry_size >= bridge.imported_set_size {
        bridge.exported_registry_size - bridge.imported_set_size
    } else {
        0
    };
    let (code, hint) = match bridge.last_readiness_reject {
        Some(x) => (Some(x.0), Some(x.1)),
        None => (None, None),
    };
    let (mm_expected, mm_received, mm_peer, mm_hint, mm_at) = match &guard.last_mismatch {
        Some(m) => (
            opt_clone(&m.expected_hash),
            opt_clone(&m.received_hash),
            Some(m.peer_node_id.clone()),
            Some(m.peer_hint.clone()),
            Some(m.at_unix_ms),
        ),
        None => (None, None, None, None, None),
    };
    let genesis_guard: &'static str = if guard.genesis_blocked {
        "blocked"
    } else {
        "ok"
    };
    let recovery_hint: Option<&'static str> = if guard.genesis_blocked {
        Some(
            "Genesis mismatch detected: stop node, fix genesis bundle/hash alignment, then restart to re-verify before user tx.",
        )
    } else {
        None
    };
    let deployment_profile = match node.deployment_profile {
        DeploymentProfile::SingleSealer => label_string("single_sealer"),
        DeploymentProfile::MultiSealerExperimental => label_string("multi_sealer_experimental"),
    };
    let seal_role = match node.seal_role {
        SealRole::Active => label_string("active"),
        SealRole::Standby => label_string("standby"),
    };
    let lease_backend_mode = match node.lease_mode {
        LeaseBackendMode::File => label_string("file"),
        LeaseBackendMode::ProcessLocal => label_string("process_local"),
    };
    let (lease_state, seal_gate_allowed, owner, term, expires, last_tip, fence, reason) = match lease {
        Some(rt) => {
            let out = crate::api::lease_out(rt);
            (
                out.state,
                out.allow_seal,
                out.owner_id,
                out.term,
                out.expires_at_ms,
                out.last_tip,
                out.fence,
                out.reason,
            )
        },
        None => (
            label_string("fenced_standby"),
            false,
            label_string("unknown"),
            0,
            0,
            0,
            0,
            label_string("lease_runtime_poisoned"),
        ),
    };
    StatusOut {
        phase: init.phase,
        ready: init.ready,
        shard: node.shard.clone(),
        state_namespace: node.state_namespace.clone(),
        network_id: identity.network_id.clone(),
        snapshot_file: opt_clone(&init.snapshot_file),
        snapshot_error: opt_clone(&init.snapshot_error),
        cluster_domain_hi: identity.cluster_domain_hi,
        bridge_exported_registry_size: Some(bridge.exported_registry_size),
        bridge_imported_set_size: Some(bridge.imported_set_size),
        bridge_registered_without_import: registered_without_import,
        cross_shard_summary: cross_shard_summary_out(summary),
        roaming_intent_pool_size: Some(bridge.intents.len() as u64),
        roaming_active_locks_size: Some(bridge.active_locks),
        stuck_exported_without_finalize: stuck.exported,
        stuck_relayed_without_import: stuck.relayed,
        oldest_stuck_age_blocks: stuck.oldest_age_blocks,
        roaming_relay_mode: relay.relay_mode,
        roaming_relay_hint: roaming_relay_hint(peers.seed_count, peers.trusted_relay_peer_count),
        peer_seed_count: peers.seed_count,
        peer_listen: peers.listen.clone(),
        live_peer_count: peers.live_peer_count,
        trusted_relay_peer_count: peers.trusted_relay_peer_count,
        peer_session_connected_total: peers.session_connected_total,
        peer_session_retrying_total: peers.session_retrying_total,
        peer_session_disconnected_total: peers.session_disconnected_total,
        peer_session_untrusted_total: peers.session_untrusted_total,
        peer_session_trusted_total: peers.session_trusted_total,
        peer_relay_health: peer_relay_health(peers.seed_count, peers.trusted_relay_peer_count),
        next_seed_due_ms: peers.next_seed_due_ms,
        last_peer_error: opt_clone(&peers.last_peer_error),
        peer_error_at_ms: peers.peer_error_at_ms,
        genesis_fetch_status: relay.genesis_fetch_status,
        genesis_fetch_hint: relay.genesis_fetch_hint,
        last_readiness_reject_code: code,
        last_readiness_reject_hint: hint,
        balance_semantics: "split:v1(local_state_balance,authoritative_home_balance,spendable_on_this_shard)",
        effective_genesis_hash: opt_clone(&guard.expected_genesis_hash),
        genesis_guard,
        bridge_federation_trust: if guard.bridge_refused {
            "bridge_federation_trust_refused"
        } else {
            "ok"
        },
        bridge_refusal_reason: opt_clone(&guard.bridge_refusal_reason),
        genesis_mismatch_total: guard.mismatch_total,
        genesis_mismatch_expected_hash: mm_expected,
        genesis_mismatch_received_hash: mm_received,
        genesis_mismatch_peer_id: mm_peer,
        genesis_mismatch_peer_hint: mm_hint,
        genesis_mismatch_unix_ms: mm_at,
        genesis_guard_recovery_hint: recovery_hint,
        cluster_id: identity.cluster_id.clone(),
        node_id: identity.node_id.clone(),
        deployment_profile,
        seal_role,
        lease_backend_mode,
        lease_backend_path: opt_clone(&node.lease_path),
        lease_last_backend_error: opt_clone(&node.lease_last_backend_error),
        validator_identity_hash: node.validator_identity_hash.clone(),
        node_instance_id: node.node_instance_id.clone(),
        cluster_prep,
        lease_state,
        seal_gate_allowed,
        lease_owner_id: owner,
        lease_term: term,
        lease_expires_at_ms: expires,
        lease_last_tip: last_tip,
        lease_fence: fence,
        lease_last_reason: reason,
        lease_acquire_ok: lease_stats.acquire_ok,
        lease_renew_ok: lease_stats.renew_ok,
        lease_loss_total: lease_stats.loss_total,
        lease_reject_total: lease_stats.reject_total,
        lease_takeover_ok: lease_stats.takeover_ok,
    }
}

// ---------------------------------------------------------------------------
// Admission of requests
// ---------------------------------------------------------------------------

/// Refusal of a request while the node is not ready: 503 naming the phase.
pub open spec fn not_ready(phase: Seq<char>) -> (u16, Seq<char>) {
    (503, "node is not ready (phase="@ + phase + ")"@)
}

/// Refusal of user transactions while snapshot persistence is degraded.
pub open spec fn degraded_msg() -> Seq<char> {
    "user tx blocked: snapshot persistence is degraded (save/load failed); fix storage before submitting txs"@
}

/// Refusal of user transactions while the genesis guard blocks.
pub open spec fn genesis_blocked_msg() -> Seq<char> {
    "user tx blocked: genesis/hash mismatch detected during shard join; check /v1/status genesis diagnostics and recover via stop -> fix bundle -> restart verify"@
}

/// Admits a request only once the node is ready (`phase` names the
/// startup phase).
pub fn ensure_ready(ready: bool, phase: &str) -> (r: Result<(), (u16, String)>)
    ensures
        ready ==> r is Ok,
        !ready ==> (r matches Err((c, m)) && (c, m@) == not_ready(phase@)),
{
    proof {
        reveal_strlit("node is not ready (phase=");
        reveal_strlit(")");
    }
    if ready {
        return Ok(());
    }
    let mut m = String::from_str("node is not ready (phase=");
    m.append(phase);
    m.append(")");
    Err((503, m))
}

/// Admits a user transaction: the node is ready, its snapshot persistence
/// is not degraded and the genesis guard does not block (each refused
/// with 503, in that order).
pub fn ensure_user_tx_allowed(ready: bool, phase: &str, degraded: bool, genesis_blocked: bool) -> (r:
    Result<(), (u16, String)>)
    ensures
        !ready ==> (r matches Err((c, m)) && (c, m@) == not_ready(phase@)),
        ready && degraded ==> (r matches Err((c, m)) && c == 503 && m@ == degraded_msg()),
        ready && !degraded && genesis_blocked ==> (r matches Err((c, m)) && c == 503 && m@
            == genesis_blocked_msg()),
        ready && !degraded && !genesis_blocked ==> r is Ok,
{
    ensure_ready(ready, phase)?;
    if degraded {
        return Err(
            (
                503,
                String::from_str(
                    "user tx blocked: snapshot persistence is degraded (save/load failed); fix storage before submitting txs",
                ),
            ),
        );
    }
    if genesis_blocked {
        return Err(
            (
                503,
                String::from_str(
                    "user tx blocked: genesis/hash mismatch detected during shard join; check /v1/status genesis diagnostics and recover via stop -> fix bundle -> restart verify",
                ),
            ),
        );
    }
    Ok(())
}

/// Admits bridge work unless bridge federation trust is refused (409 with
/// the refusal reason, else `bridge_federation_trust_refused`).
pub fn ensure_bridge_federation_ok(refused: bool, reason: &Option<String>) -> (r: Result<
    (),
    (u16, String),
>)
    ensures
        !refused ==> r is Ok,
        refused ==> (r matches Err((c, m)) && c == 409 && m@ == match reason {
            Some(x) => x@,
            None => "bridge_federation_trust_refused"@,
        }),
{
    if !refused {
        return Ok(());
    }
    let m = match reason {
        Some(x) => x.clone(),
        None => String::from_str("bridge_federation_trust_refused"),
    };
    Err((409, m))
}

} // verus!
