use pwmd::handshake::ClusterRole;
use pwmd::lifecycle::{
    attester_alive, cluster_gate_verdict, cluster_seal_preflight, count_sync_ready_hs, gate_obs,
    AttSyncCtx, AttesterObs, ClusterGateDedup, ClusterGateVerdict, GateBlock, PeerLink,
    PeerSyncObs, RoundObs, SealPreflight, SealSuppressWindow, SuppressReason,
    SEAL_POLL_INTERVAL_MS,
};

#[test]
fn slot_open_idempotent() {
    let mut win = SealSuppressWindow::mk_new();
    let opened1 = win.begin_slot(1000, 10);
    let opened2 = win.begin_slot(1000, 11);
    let opened3 = win.begin_slot(1000, 12);
    assert!(opened1);
    assert!(!opened2);
    assert!(!opened3);
    assert_eq!(win.slots, 1);
    assert_eq!(win.slot_supp, 0);
}

#[test]
fn slot_polls_no_inflate() {
    let mut win = SealSuppressWindow::mk_new();
    win.begin_slot(1000, 1_000);
    for now in (1_010..=1_200).step_by(10) {
        assert!(!win.eval_supp(now, 1_000, SuppressReason::ClusterGate));
    }
    assert_eq!(win.slots, 1);
    assert_eq!(win.slot_supp, 0);
    assert!(!win.supp_marked);
}

#[test]
fn slot_single_strike_after_nominal() {
    let mut win = SealSuppressWindow::mk_new();
    win.begin_slot(1000, 1_000);
    assert!(!win.eval_supp(2_000, 1_000, SuppressReason::ClusterGate));
    assert!(win.eval_supp(2_001, 1_000, SuppressReason::ClusterGate));
    let retry_at = 2_001 + SEAL_POLL_INTERVAL_MS;
    assert!(!win.eval_supp(retry_at, 1_000, SuppressReason::ClusterGate));
    assert_eq!(win.slot_supp, 1);
    assert_eq!(win.last_reason, Some(SuppressReason::ClusterGate));
    assert!(win.supp_marked);
    assert_eq!(win.attempt_start_ms, Some(retry_at));
}

#[test]
fn slot_seal_inside_nominal_counts() {
    let mut win = SealSuppressWindow::mk_new();
    win.begin_slot(1000, 1_000);
    assert!(!win.eval_supp(1_300, 1_000, SuppressReason::ClusterGate));
    win.close_sealed();
    assert_eq!(win.slots, 1);
    assert_eq!(win.slot_supp, 0);
    assert_eq!(win.sealed_in, 1);
}

#[test]
fn slot_sealed_clears() {
    let mut win = SealSuppressWindow::mk_new();
    win.begin_slot(1000, 1_000);
    win.eval_supp(2_001, 1_000, SuppressReason::LeaseFence);
    win.close_sealed();
    assert_eq!(win.slots, 1);
    assert_eq!(win.slot_supp, 1);
    assert_eq!(win.sealed_in, 1);
    assert!(win.active_deadline_ms.is_none());
    assert!(win.attempt_start_ms.is_none());
    assert!(!win.supp_marked);
}

#[test]
fn slot_skip_no_dup_mark() {
    let mut win = SealSuppressWindow::mk_new();
    win.begin_slot(1000, 1_000);
    assert!(win.eval_supp(2_001, 1_000, SuppressReason::ClusterGate));
    win.begin_slot(2000, 2_010);
    assert_eq!(win.slots, 2);
    assert_eq!(win.slot_supp, 1);
}

#[test]
fn slot_skip_on_new_grid() {
    let mut win = SealSuppressWindow::mk_new();
    win.begin_slot(1000, 1_000);
    win.begin_slot(2000, 2_000);
    assert_eq!(win.slots, 2);
    assert_eq!(win.slot_supp, 1);
    assert_eq!(win.last_reason, Some(SuppressReason::SlotSkipped));
}

#[test]
fn slot_steady_cy_window_counts() {
    let mut win = SealSuppressWindow::mk_new();
    for i in 0..35u64 {
        let d = (i + 1) * 1000;
        win.begin_slot(d, d);
        win.close_sealed();
    }
    for i in 35..100u64 {
        let d = (i + 1) * 1000;
        win.begin_slot(d, d);
        assert!(win.eval_supp(d + 1001, 1_000, SuppressReason::ClusterGate));
    }
    assert_eq!(win.slots, 100);
    assert_eq!(win.slot_supp, 65);
    assert_eq!(win.sealed_in, 35);
}

#[test]
fn slot_wait_to_split() {
    let mut win = SealSuppressWindow::mk_new();
    win.begin_slot(1000, 1_000);
    assert!(win.note_wait_for_height(42));
    assert!(!win.note_wait_for_height(42));
    assert!(win.note_to_for_height(42));
    assert!(!win.note_to_for_height(42));
    assert!(win.eval_supp(2_001, 1_000, SuppressReason::ClusterGate));
    assert_eq!(win.wait_att, 1);
    assert_eq!(win.gate_to, 1);
    assert_eq!(win.slot_supp, 1);
    win.reset();
    assert_eq!(win.wait_att, 0);
    assert_eq!(win.gate_to, 0);
}

#[test]
fn slot_height_dedup_blocks_repeat() {
    let mut win = SealSuppressWindow::mk_new();
    let h = 33_201u64;
    win.begin_slot(1000, 1_000);
    assert!(win.note_wait_for_height(h));
    assert!(!win.note_wait_for_height(h));
    assert!(win.note_to_for_height(h));
    assert!(!win.note_to_for_height(h));
    assert!(win.eval_supp_for_height(2_001, 1_000, SuppressReason::ClusterGate, Some(h)));
    win.begin_slot(2000, 2_000);
    assert!(!win.eval_supp_for_height(3_002, 1_000, SuppressReason::ClusterGate, Some(h)));
    assert_eq!(win.slot_supp, 1);
}

#[test]
fn cluster_gate_dedup_once_h() {
    let mut d = ClusterGateDedup::default();
    assert!(d.should_log_quorum_timeout(100));
    assert!(!d.should_log_quorum_timeout(100));
    assert!(d.should_log_quorum_wait(100));
    assert!(!d.should_log_quorum_wait(100));
    assert!(d.should_log_quorum_timeout(101));
    d.reset();
    assert!(d.should_log_quorum_timeout(100));
    assert!(d.should_log_quorum_wait(100));
}

#[test]
fn supp_window_reset_zeros() {
    let mut win = SealSuppressWindow::mk_new();
    win.begin_slot(1000, 1_000);
    win.eval_supp(2_001, 1_000, SuppressReason::LeaseFence);
    win.reset();
    assert_eq!(win.slots, 0);
    assert_eq!(win.slot_supp, 0);
    assert_eq!(win.sealed_in, 0);
    assert!(win.active_deadline_ms.is_none());
    assert!(win.attempt_start_ms.is_none());
    assert!(!win.supp_marked);
    assert!(win.last_reason.is_none());
}

#[test]
fn suppress_reason_tags() {
    assert_eq!(SuppressReason::LeaseFence.as_tag(), "lease_fence");
    assert_eq!(SuppressReason::ClusterGate.as_tag(), "cluster_gate");
    assert_eq!(SuppressReason::SlotSkipped.as_tag(), "slot_skipped");
}

#[test]
fn preflight_cluster_disabled() {
    let p = cluster_seal_preflight(false, 0, 1);
    assert_eq!(p, SealPreflight::Ready);
}

#[test]
fn preflight_waits_no_peer() {
    assert_eq!(
        cluster_seal_preflight(true, 0, 1),
        SealPreflight::WaitingAttester
    );
    assert_eq!(
        cluster_seal_preflight(true, 1, 2),
        SealPreflight::WaitingAttester
    );
}

#[test]
fn preflight_ready_on_quorum() {
    assert_eq!(cluster_seal_preflight(true, 1, 1), SealPreflight::Ready);
    assert_eq!(cluster_seal_preflight(true, 3, 2), SealPreflight::Ready);
}

#[test]
fn attester_alive_window() {
    let now = 10_000u64;
    let win = 5_000u64;
    assert!(attester_alive(true, 9_000, now, win));
    assert!(attester_alive(true, 5_000, now, win));
    assert!(!attester_alive(true, 4_999, now, win));
    assert!(!attester_alive(false, 9_999, now, win));
    assert!(!attester_alive(true, 0, now, win));
}

fn mk_obs(instance_id: Option<&str>, liveish: bool, last_seen_ms: u64, sync: Option<PeerSyncObs>) -> AttesterObs {
    AttesterObs {
        cluster_attest_enabled: true,
        cluster_role: ClusterRole::Attester,
        instance_id: instance_id.map(|s| s.to_string()),
        link: Some(PeerLink { liveish, last_seen_ms }),
        sync,
    }
}

fn ctx(local_h: u64) -> AttSyncCtx {
    AttSyncCtx { now_ms: 10_000, local_h }
}

#[test]
fn live_attester_count_uses_instance() {
    let peers = vec![mk_obs(Some("cy-quorum-attester"), true, 9_900, None)];
    let members = vec![
        "cy-quorum-proposer".to_string(),
        "cy-quorum-attester".to_string(),
    ];
    let out = count_sync_ready_hs(&peers, &members, "cy-quorum-proposer", ctx(10));
    assert_eq!(out.live_n, 1);
    assert_eq!(out.sync_n, 1);
}

#[test]
fn live_attester_no_instance() {
    let peers = vec![mk_obs(None, true, 9_900, None)];
    let members = vec![
        "cy-quorum-proposer".to_string(),
        "cy-quorum-attester".to_string(),
    ];
    let out = count_sync_ready_hs(&peers, &members, "cy-quorum-proposer", ctx(10));
    assert_eq!(out.live_n, 0);
    assert_eq!(out.sync_n, 0);
}

#[test]
fn live_attester_excludes_local() {
    let peers = vec![mk_obs(Some("cy-quorum-proposer"), true, 9_900, None)];
    let members = vec!["cy-quorum-proposer".to_string()];
    let out = count_sync_ready_hs(&peers, &members, "cy-quorum-proposer", ctx(10));
    assert_eq!(out.live_n, 0);
    assert_eq!(out.sync_n, 0);
}

#[test]
fn live_attester_retrying_counts() {
    // A retrying session is still "liveish".
    let peers = vec![mk_obs(Some("cy-quorum-attester"), true, 9_900, None)];
    let members = vec!["cy-quorum-attester".to_string()];
    let out = count_sync_ready_hs(&peers, &members, "cy-quorum-proposer", ctx(10));
    assert_eq!(out.live_n, 1);
    assert_eq!(out.sync_n, 1);
}

#[test]
fn stale_or_proposer_peers_do_not_count() {
    let mut proposer = mk_obs(Some("cy-quorum-attester"), true, 9_900, None);
    proposer.cluster_role = ClusterRole::Proposer;
    let stale = mk_obs(Some("cy-quorum-attester"), true, 1_000, None);
    let down = mk_obs(Some("cy-quorum-attester"), false, 9_900, None);
    let members = vec!["cy-quorum-attester".to_string()];
    let out = count_sync_ready_hs(&vec![proposer, stale, down], &members, "me", ctx(10));
    assert_eq!((out.live_n, out.sync_n), (0, 0));
}

#[test]
fn sync_ready_lag_huge_no() {
    let sync = PeerSyncObs { tip_h: 33_001, fork_h: None, fork_n: 0 };
    let peers = vec![mk_obs(Some("cy-quorum-attester"), true, 9_900, Some(sync))];
    let members = vec!["cy-quorum-attester".to_string()];
    let out = count_sync_ready_hs(&peers, &members, "cy-quorum-proposer", ctx(65_300));
    assert_eq!(out.live_n, 1);
    assert_eq!(out.sync_n, 1);
}

#[test]
fn sync_ready_lag_one_yes() {
    let sync = PeerSyncObs { tip_h: 65_299, fork_h: None, fork_n: 0 };
    let peers = vec![mk_obs(Some("cy-quorum-attester"), true, 9_900, Some(sync))];
    let members = vec!["cy-quorum-attester".to_string()];
    let out = count_sync_ready_hs(&peers, &members, "cy-quorum-proposer", ctx(65_300));
    assert_eq!(out.live_n, 1);
    assert_eq!(out.sync_n, 1);
    assert_eq!(out.peer_tip_max, 65_299);
}

#[test]
fn sync_ready_fork_lock_no() {
    let sync = PeerSyncObs { tip_h: 65_299, fork_h: Some(65_301), fork_n: 3 };
    let peers = vec![mk_obs(Some("cy-quorum-attester"), true, 9_900, Some(sync))];
    let members = vec!["cy-quorum-attester".to_string()];
    let out = count_sync_ready_hs(&peers, &members, "cy-quorum-proposer", ctx(65_300));
    assert_eq!(out.live_n, 1);
    assert_eq!(out.sync_n, 0);
}

fn round(attesters: &[&str], opened: Option<u64>) -> RoundObs {
    RoundObs {
        vote_object: "vo".into(),
        candidate_hash: "ch".into(),
        proposer_id: Some("p".into()),
        attesters: attesters.iter().map(|s| s.to_string()).collect(),
        propose_opened_at_ms: opened,
    }
}

#[test]
fn gate_opens_on_quorum_of_other_members() {
    let members = vec!["p".to_string(), "a".to_string(), "b".to_string()];
    let r = round(&["p", "a", "x"], Some(0));
    assert_eq!(
        cluster_gate_verdict(Some(&r), &members, 2, 1_000, 500),
        ClusterGateVerdict::QuorumPending { got: 1 }
    );
    assert_eq!(
        cluster_gate_verdict(Some(&r), &members, 2, 1_000, 1_500),
        ClusterGateVerdict::QuorumTimeout { got: 1, elapsed_ms: 1_500 }
    );
    let r2 = round(&["a", "b"], Some(0));
    assert_eq!(
        cluster_gate_verdict(Some(&r2), &members, 2, 1_000, 500),
        ClusterGateVerdict::Open
    );
    assert_eq!(cluster_gate_verdict(None, &members, 2, 1_000, 500), ClusterGateVerdict::MissingRound);
    let mut r3 = round(&["a", "b"], Some(0));
    r3.proposer_id = Some("stranger".into());
    assert_eq!(
        cluster_gate_verdict(Some(&r3), &members, 2, 1_000, 500),
        ClusterGateVerdict::ProposerNotMember
    );
    let mut r4 = round(&["a"], None);
    r4.vote_object = " ".into();
    assert_eq!(
        cluster_gate_verdict(Some(&r4), &members, 1, 1_000, 500),
        ClusterGateVerdict::IncompleteBinding { vote_ok: false, cand_ok: true }
    );
}

#[test]
fn gate_obs_reports_wait_and_timeout() {
    let members = vec!["p".to_string(), "a".to_string()];
    let r = round(&[], Some(100));
    assert_eq!(gate_obs(true, ClusterRole::Proposer, Some(&r), &members, 1, 1_000, 500), Some(GateBlock::Wait));
    assert_eq!(gate_obs(true, ClusterRole::Proposer, Some(&r), &members, 1, 1_000, 1_200), Some(GateBlock::Timeout));
    assert_eq!(gate_obs(true, ClusterRole::Attester, Some(&r), &members, 1, 1_000, 1_200), None);
    assert_eq!(gate_obs(true, ClusterRole::Proposer, None, &members, 1, 1_000, 1_200), Some(GateBlock::Wait));
    let ok = round(&["a"], Some(100));
    assert_eq!(gate_obs(true, ClusterRole::Proposer, Some(&ok), &members, 1, 1_000, 1_200), None);
}

#[test]
fn gate_dedup_claims_each_height_once_per_kind() {
    let mut d = ClusterGateDedup::default();
    assert!(d.should_log_missing_round(5));
    assert!(!d.should_log_missing_round(5));
    assert!(d.should_log_invalid_binding(5));
    assert!(!d.should_log_invalid_binding(5));
    assert!(d.should_log_invalid_proposer(5));
    assert!(d.should_log_invalid_proposer(6));
    assert!(!d.should_log_invalid_proposer(6));
    assert!(d.should_log_wait_sync(7));
    assert!(!d.should_log_wait_sync(7));
    d.reset();
    assert!(d.should_log_missing_round(5));
    assert!(d.should_log_wait_sync(7));
}

#[test]
fn repeated_attester_counts_once() {
    let members = vec!["p".to_string(), "a".to_string(), "b".to_string()];
    let r = round(&["a", "a", "p"], Some(0));
    assert_eq!(
        cluster_gate_verdict(Some(&r), &members, 2, 1_000, 500),
        ClusterGateVerdict::QuorumPending { got: 1 }
    );
    let r2 = round(&["a", "b", "a"], Some(0));
    assert_eq!(
        cluster_gate_verdict(Some(&r2), &members, 2, 1_000, 500),
        ClusterGateVerdict::Open
    );
}

#[test]
fn sync_ready_tip_max_over_live_attesters() {
    let members = vec!["m1".to_string(), "m2".to_string()];
    let s1 = PeerSyncObs { tip_h: 40, fork_h: None, fork_n: 0 };
    let s2 = PeerSyncObs { tip_h: 70, fork_h: None, fork_n: 0 };
    let peers = vec![
        mk_obs(Some("m1"), true, 9_900, Some(s1)),
        mk_obs(Some("m2"), true, 9_900, Some(s2)),
        mk_obs(Some("outsider"), true, 9_900, Some(PeerSyncObs { tip_h: 99, fork_h: None, fork_n: 0 })),
    ];
    let out = count_sync_ready_hs(&peers, &members, "local", ctx(10));
    assert_eq!(out.live_n, 2);
    assert_eq!(out.sync_n, 2);
    assert_eq!(out.peer_tip_max, 70);
}
