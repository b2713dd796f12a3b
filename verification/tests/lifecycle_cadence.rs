use pwmd::handshake::{ClusterRole, SealRole};
use pwmd::lifecycle::{
    align_next_seal_ms, apply_cluster_timing, attester_alive, autosnap_hit, cluster_gate_verdict,
    cluster_pending_summary_hit, cluster_prop_ms, cluster_seal_preflight, cluster_timing_ms,
    count_sync_ready_hs, derive_seal_role, gate_obs, gate_recheck_needed, lease_renew_log_hit,
    poll_sleep_ms, seal_drift_adjust_ms, seal_drift_clamp_envelope, seal_drift_in_deadband,
    seal_interval_ms, should_attempt_seal, should_fire_seal_ahead, AttSyncCtx, AttesterObs,
    ClusterGateDedup, ClusterGateVerdict, GateBlock, LeaseRejectWarnDedup, PeerLink, PeerSyncObs,
    RoundObs, SealAheadWindow, SealPreflight, SealSuppressWindow, SuppressReason,
    AUTOSNAPSHOT_BLOCK_INTERVAL, SEAL_POLL_INTERVAL_MS,
};

#[test]
fn autosnap_mod100_ok() {
    assert_eq!(AUTOSNAPSHOT_BLOCK_INTERVAL, 100);
    let hits: Vec<u64> = (1..=300).filter(|h| autosnap_hit(*h)).collect();
    assert_eq!(hits, vec![100, 200, 300]);
}

#[test]
fn cluster_pending_summary_decade() {
    let hits: Vec<u64> = (1..=30)
        .filter(|h| cluster_pending_summary_hit(*h))
        .collect();
    assert_eq!(hits, vec![10, 20, 30]);
}

#[test]
fn lease_renew_log_dedupe() {
    let mut last = 0u64;
    assert!(!lease_renew_log_hit(&mut last, 9));
    assert!(lease_renew_log_hit(&mut last, 10));
    assert!(!lease_renew_log_hit(&mut last, 10));
    assert!(lease_renew_log_hit(&mut last, 20));
}

#[test]
fn lease_reject_warn_throttled_per_reason() {
    let mut d = LeaseRejectWarnDedup::default();
    assert_eq!(d.lease_reject_warn_suppressed(1_000, "held"), Some(0));
    assert_eq!(d.lease_reject_warn_suppressed(1_100, "held"), None);
    assert_eq!(d.lease_reject_warn_suppressed(1_200, "held"), None);
    assert_eq!(d.lease_reject_warn_suppressed(6_000, "held"), Some(2));
    assert_eq!(d.lease_reject_warn_suppressed(6_001, "other"), Some(0));
}

#[test]
fn seal_interval_from_bph() {
    assert_eq!(seal_interval_ms(3600).expect("3600 bph"), 1000);
    assert_eq!(seal_interval_ms(1800).expect("1800 bph"), 2000);
    assert_eq!(seal_interval_ms(3_600_001).expect("high bph"), 1);
    assert!(seal_interval_ms(0).is_err());
}

#[test]
fn cluster_timing_from_bph() {
    let seal_ms = seal_interval_ms(3600).expect("3600 bph");
    assert_eq!(cluster_timing_ms(seal_ms), 2000);
    assert_eq!(cluster_prop_ms(seal_ms, 1500), 1000);
    assert_eq!(cluster_prop_ms(seal_ms, 500), 500);
}

#[test]
fn cluster_apply_attester_hb() {
    let mut attest_timeout = 1000u64;
    let mut heartbeat = 1500u64;
    let seal_ms = apply_cluster_timing(true, &mut attest_timeout, &mut heartbeat, 3600)
        .expect("apply_cluster_timing");
    assert_eq!(seal_ms, 1000);
    assert_eq!(heartbeat, 1000);
    assert_eq!(attest_timeout, 2000);
}

#[test]
fn cluster_apply_disabled_noop() {
    let mut attest_timeout = 1000u64;
    let mut heartbeat = 1500u64;
    let seal_ms = apply_cluster_timing(false, &mut attest_timeout, &mut heartbeat, 3600)
        .expect("apply_cluster_timing");
    assert_eq!(seal_ms, 1000);
    assert_eq!(heartbeat, 1500);
    assert_eq!(attest_timeout, 1000);
}

#[test]
fn cluster_apply_keeps_short_hb() {
    let mut attest_timeout = 1000u64;
    let mut heartbeat = 500u64;
    let seal_ms = apply_cluster_timing(true, &mut attest_timeout, &mut heartbeat, 3600)
        .expect("apply_cluster_timing");
    assert_eq!(seal_ms, 1000);
    assert_eq!(heartbeat, 500);
}

#[test]
fn cluster_apply_zero_bph_errors() {
    let mut attest_timeout = 1000u64;
    let mut heartbeat = 1500u64;
    assert!(apply_cluster_timing(true, &mut attest_timeout, &mut heartbeat, 0).is_err());
    assert_eq!((attest_timeout, heartbeat), (1000, 1500));
}

#[test]
fn drift_slow_decreases_clamped() {
    let (next, ppm) = seal_drift_adjust_ms(1000, 120_000, 100_000);
    assert_eq!(next, 990);
    assert_eq!(ppm, -10_000);
}

#[test]
fn drift_fast_increases_clamped() {
    let (next, ppm) = seal_drift_adjust_ms(1000, 90_000, 100_000);
    assert_eq!(next, 1010);
    assert_eq!(ppm, 10_000);
}

#[test]
fn drift_exact_noop() {
    let (next, ppm) = seal_drift_adjust_ms(1000, 100_000, 100_000);
    assert_eq!(next, 1000);
    assert_eq!(ppm, 0);
}

#[test]
fn envelope_pins_windup_floor() {
    let (clamped, hit) = seal_drift_clamp_envelope(1000, 257);
    assert_eq!(clamped, 990);
    assert!(hit);
}

#[test]
fn envelope_caps_fast_increase() {
    let (clamped, hit) = seal_drift_clamp_envelope(1000, 1200);
    assert_eq!(clamped, 1010);
    assert!(hit);
}

#[test]
fn envelope_inside_no_clamp() {
    let (clamped, hit) = seal_drift_clamp_envelope(1000, 1003);
    assert_eq!(clamped, 1003);
    assert!(!hit);
    let (clamped, hit) = seal_drift_clamp_envelope(1000, 999);
    assert_eq!(clamped, 999);
    assert!(!hit);
}

#[test]
fn envelope_slow_loop_stable() {
    let nominal = 1000u64;
    let mut effective = nominal;
    for _ in 0..100 {
        let actual = 120_000u64;
        let expected = 100_000u64;
        let (next, _ppm) = seal_drift_adjust_ms(effective, actual, expected);
        let (clamped, _hit) = seal_drift_clamp_envelope(nominal, next);
        effective = clamped;
        assert!(effective >= 990, "effective drifted below floor: {}", effective);
        assert!(effective <= 1010, "effective drifted above ceiling: {}", effective);
    }
    assert_eq!(effective, 990);
}

#[test]
fn envelope_fast_loop_stable() {
    let nominal = 1000u64;
    let mut effective = nominal;
    for _ in 0..100 {
        let (next, _ppm) = seal_drift_adjust_ms(effective, 90_000, 100_000);
        let (clamped, _hit) = seal_drift_clamp_envelope(nominal, next);
        effective = clamped;
        assert!(effective >= 990);
        assert!(effective <= 1010);
    }
    assert_eq!(effective, 1010);
}

#[test]
fn deadband_skips_tight_drift() {
    assert!(seal_drift_in_deadband(100_050, 100_000));
    assert!(!seal_drift_in_deadband(101_000, 100_000));
    assert!(seal_drift_in_deadband(100_000, 100_000));
}

#[test]
fn deadline_grid_bph_3600() {
    assert_eq!(align_next_seal_ms(0, 1000), 1000);
    assert_eq!(align_next_seal_ms(1, 1000), 1000);
    assert_eq!(align_next_seal_ms(999, 1000), 1000);
    assert_eq!(align_next_seal_ms(1000, 1000), 2000);
    assert_eq!(align_next_seal_ms(10_035, 1000), 11_000);
}

#[test]
fn deadline_grid_misc_nominal() {
    assert_eq!(align_next_seal_ms(0, 2000), 2000);
    assert_eq!(align_next_seal_ms(2_500, 2000), 4000);
    assert_eq!(align_next_seal_ms(42, 0), 43);
}

#[test]
fn deadline_attempt_edge() {
    assert!(!should_attempt_seal(999, 1000));
    assert!(should_attempt_seal(1000, 1000));
    assert!(should_attempt_seal(1001, 1000));
}

#[test]
fn seal_ahead_trigger_window() {
    assert!(!should_fire_seal_ahead(899, 1000, 100, None));
    assert!(should_fire_seal_ahead(900, 1000, 100, None));
    assert!(should_fire_seal_ahead(999, 1000, 100, None));
    assert!(!should_fire_seal_ahead(1000, 1000, 100, None));
    assert!(!should_fire_seal_ahead(900, 1000, 100, Some(1000)));
    assert!(!should_fire_seal_ahead(900, 1000, 0, None));
}

#[test]
fn seal_ahead_window_avg_lead() {
    let mut win = SealAheadWindow::mk_new();
    assert_eq!(win.avg_lead_ms(), 0);
    win.note_fired(100);
    win.note_fired(80);
    assert_eq!(win.fired, 2);
    assert_eq!(win.avg_lead_ms(), 90);
    win.note_preflight_skip();
    assert_eq!(win.preflight_skip, 1);
    win.reset();
    assert_eq!(win.fired, 0);
}

#[test]
fn poll_sleep_bounded_gap() {
    assert_eq!(
        poll_sleep_ms(0, 500, SEAL_POLL_INTERVAL_MS),
        SEAL_POLL_INTERVAL_MS
    );
    assert_eq!(poll_sleep_ms(995, 1000, SEAL_POLL_INTERVAL_MS), 5);
    assert_eq!(
        poll_sleep_ms(1000, 1000, SEAL_POLL_INTERVAL_MS),
        SEAL_POLL_INTERVAL_MS
    );
    assert_eq!(
        poll_sleep_ms(1500, 1000, SEAL_POLL_INTERVAL_MS),
        SEAL_POLL_INTERVAL_MS
    );
    assert_eq!(poll_sleep_ms(995, 1000, 0), 1);
}

#[test]
fn gate_recheck_policy() {
    assert!(!gate_recheck_needed(false, false));
    assert!(!gate_recheck_needed(true, true));
    assert!(gate_recheck_needed(true, false));
}

#[test]
fn deadline_holds_on_suppress() {
    let nominal = 1000u64;
    let mut deadline = align_next_seal_ms(0, nominal);
    let now_a = 1000u64;
    assert!(should_attempt_seal(now_a, deadline));
    assert_eq!(deadline, 1000);
    let now_b = 1300u64;
    let scheduled = align_next_seal_ms(now_b, nominal);
    deadline = scheduled;
    assert_eq!(deadline, 2000);
}

#[test]
fn derive_role_attester_is_standby() {
    assert_eq!(
        derive_seal_role(None, true, ClusterRole::Attester, false),
        SealRole::Standby
    );
}

#[test]
fn derive_role_override_and_defaults() {
    assert_eq!(
        derive_seal_role(Some(SealRole::Active), true, ClusterRole::Attester, true),
        SealRole::Active
    );
    assert_eq!(
        derive_seal_role(None, true, ClusterRole::Proposer, false),
        SealRole::Active
    );
    assert_eq!(
        derive_seal_role(None, false, ClusterRole::Attester, false),
        SealRole::Active
    );
    assert_eq!(
        derive_seal_role(None, false, ClusterRole::NoRole, true),
        SealRole::Standby
    );
}

#[test]
fn cluster_apply_proposer_hb() {
    // proposer role: the heartbeat follows the seal cadence
    let mut attest_timeout = 1000u64;
    let mut heartbeat = 1500u64;
    let seal_ms = apply_cluster_timing(true, &mut attest_timeout, &mut heartbeat, 3600)
        .expect("apply_cluster_timing");
    assert_eq!(seal_ms, 1000);
    assert_eq!(heartbeat, 1000);
}

fn suppress_pct(slots: u64, struck: u64) -> f64 {
    if slots == 0 {
        0.0
    } else {
        struck as f64 * 100.0 / slots as f64
    }
}

#[test]
fn slot_seal_inside_nominal() {
    let mut win = SealSuppressWindow::mk_new();
    win.begin_slot(1000, 1_000);
    assert!(!win.eval_supp(1_300, 1_000, SuppressReason::ClusterGate));
    win.close_sealed();
    assert_eq!(win.slots, 1);
    assert_eq!(win.slot_supp, 0);
    assert_eq!(win.sealed_in, 1);
    let pct = suppress_pct(win.slots, win.slot_supp);
    assert_eq!(pct, 0.0);
}

#[test]
fn slot_steady_cy_window() {
    let mut win = SealSuppressWindow::mk_new();
    for i in 0..35u64 {
        let d = (i + 1) * 1000;
        win.begin_slot(d, d);
        win.close_sealed();
    }
    for i in 35..100u64 {
        let d = (i + 1) * 1000;
        win.begin_slot(d, d);
        assert!(win.eval_supp(d + 1001, 1_000, SuppressReason::ClusterGate));
    }
    assert_eq!(win.slots, 100);
    assert_eq!(win.slot_supp, 65);
    assert_eq!(win.sealed_in, 35);
    let pct = suppress_pct(win.slots, win.slot_supp);
    assert!((pct - 65.0).abs() < 1e-9, "pct={pct}");
}
