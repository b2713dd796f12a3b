use pwmd::api::{
    account_fresh_window_ms, cross_shard_summary_out, facts_response, gate_elapsed,
    gate_poll_step_out, gate_wait_step_out, lab_seal_access, manual_after_control, manual_step_mode_ok, seal_control_out, seal_status_out, status_target_h, sync_out, ManualSealObs, SealControlIn, SealStepIn, offchain_batch_size_ok, peer_endpoint_access, PeerEndpoint, MAX_BATCH_ENTRIES, gate_wait_timeout_detail, gate_wait_timeout_ms, hex32,
    lease_out, lease_step_out, parse_id, preflight_step_out, propose_step_out,
    propose_timeout_detail, propose_timeout_ms, round_out, seal_commit_step_out, step_all_out,
    step_name, target_height, verbose_until_ms, CrossShardFactsQuery, SealStep,
};
use pwmd::lifecycle::GateBlock;
use pwmd::lease::LeaseRuntime;
use pwmd::ledger::{CrossShardFact, CrossShardLedger, CrossShardOrigin, CrossShardStatus};
use pwmd::lifecycle::AttSyncRes;

fn fact(id: u8, target: u8, h: u64) -> CrossShardFact {
    CrossShardFact {
        export_id: [id; 32],
        source_domain_hi: 0x20,
        target_domain_hi: target,
        amount: 5,
        status: CrossShardStatus::Registered,
        first_height: h,
        last_height: h,
        source: None,
        to: [0xAB; 32],
        intent_id: Some([1; 32]),
        origin: CrossShardOrigin::Local,
    }
}

#[test]
fn hex_ids_round_trip() {
    let mut id = [0u8; 32];
    id[0] = 0x0f;
    id[31] = 0xA0;
    let text = hex32(&id);
    assert_eq!(text.len(), 64);
    assert!(text.starts_with("0f00"));
    assert!(text.ends_with("a0"));
    assert_eq!(parse_id(&text), Ok(id));
    assert_eq!(parse_id(&format!("  {} ", text.to_uppercase())), Ok(id));
    assert!(parse_id(&text[..62]).is_err());
    assert!(parse_id(&format!("{}zz", &text[..62])).is_err());
}

#[test]
fn facts_query_defaults_and_hex() {
    let mut ledger = CrossShardLedger::new();
    assert!(ledger.insert_fact(fact(3, 0x10, 12)));
    assert!(ledger.insert_fact(fact(1, 0x10, 10)));
    assert!(ledger.insert_fact(fact(2, 0x11, 10)));
    let out = facts_response(
        &ledger,
        &CrossShardFactsQuery { target_domain_hi: 0x10, from_height: None, limit: None },
    );
    assert_eq!((out.from_height, out.limit, out.total), (0, 256, 2));
    assert_eq!(out.facts[0].export_id, hex32(&[1; 32]));
    assert_eq!(out.facts[0].to, "ab".repeat(32));
    assert_eq!(out.facts[0].source, None);
    assert_eq!(out.facts[0].intent_id, Some("01".repeat(32)));
    let capped = facts_response(
        &ledger,
        &CrossShardFactsQuery { target_domain_hi: 0x10, from_height: Some(11), limit: Some(0) },
    );
    assert_eq!((capped.limit, capped.total), (1, 1));
    assert_eq!(capped.facts[0].last_height, 12);
}

#[test]
fn summary_out_copies_rows() {
    let mut ledger = CrossShardLedger::new();
    assert!(ledger.insert_fact(fact(3, 0x10, 12)));
    let out = cross_shard_summary_out(ledger.summary());
    assert_eq!(out.total_exported_count, 1);
    assert_eq!(out.pending_count, 1);
    assert_eq!(out.by_domain_hi.len(), 1);
    assert_eq!(out.by_domain_hi[0].domain_hi, 0x10);
    assert_eq!(out.by_domain_hi[0].exported_amount, 5);
}

#[test]
fn freshness_window_rules() {
    assert_eq!(account_fresh_window_ms(1_500, 4_500), 9_000);
    assert_eq!(account_fresh_window_ms(3_000, 1_000), 12_000);
    assert_eq!(account_fresh_window_ms(10, 10), 500);
    assert_eq!(account_fresh_window_ms(0, u64::MAX), u64::MAX);
}

#[test]
fn step_names_and_rounds() {
    assert_eq!(step_name(SealStep::GatePoll), "gate_poll");
    assert_eq!(step_name(SealStep::StepAll), "step_all");
    let r = round_out(9, 2, 3, Some(100));
    assert_eq!((r.height, r.round, r.got, r.need), (9, 0, 2, 3));
    assert_eq!(gate_elapsed(150, Some(100)), Some(50));
    assert_eq!(gate_elapsed(50, Some(100)), Some(0));
    assert_eq!(gate_elapsed(50, None), None);
    assert_eq!(target_height(None, 41), 42);
    assert_eq!(target_height(Some(7), 41), 7);
}

#[test]
fn lease_view_labels_state() {
    let rt = LeaseRuntime::new("owner".to_string());
    let out = lease_out(&rt);
    assert_eq!(out.owner_id, "owner");
    assert_eq!(out.state, "standby_syncing");
}

#[test]
fn preflight_step_reports_quorum() {
    let att = AttSyncRes { live_n: 2, sync_n: 1, local_h: 5, peer_tip_max: 7 };
    let waiting = preflight_step_out(true, 2, att, 3, 6, 5, 1);
    assert!(!waiting.ok);
    assert_eq!(
        waiting.detail,
        "preflight=WaitingAttester live_synced_attesters=1 live_connected_attesters=2 peer_tip_max=7"
    );
    let ready = preflight_step_out(true, 1, att, 3, 6, 5, 1);
    assert!(ready.ok);
    assert!(ready.detail.starts_with("preflight=Ready"));
    assert_eq!(ready.sync.expect("sync").max_lag, 3);
}

#[test]
fn manual_lease_and_propose_steps() {
    let rt = LeaseRuntime::new("inst-a".to_string());
    let lease = lease_out(&rt);
    let out = lease_step_out(false, &lease, 8, 7, 3);
    assert!(!out.ok);
    assert_eq!(out.step, SealStep::Lease);
    assert_eq!(out.detail, "lease=fenced owner=inst-a fence=0");
    let out = lease_step_out(true, &lease, 8, 7, 3);
    assert_eq!(out.detail, "lease=ok owner=inst-a fence=0");
    assert_eq!(propose_timeout_ms(None), 2_000);
    assert_eq!(propose_timeout_ms(Some(50)), 50);
    assert_eq!(
        propose_timeout_detail(9),
        "propose timeout waiting for wire send target_h=9"
    );
    let out = propose_step_out(1_234, 9, 8, 12);
    assert!(out.ok);
    assert_eq!(out.detail, "propose wire_opened_at_ms=1234");
    assert_eq!(verbose_until_ms(false, false, 100), 0);
    assert_eq!(verbose_until_ms(true, false, 100), 5_100);
    assert_eq!(verbose_until_ms(false, true, u64::MAX - 1), u64::MAX);
}

#[test]
fn manual_gate_and_commit_steps() {
    let poll = gate_poll_step_out(false, Some(GateBlock::Wait), 1, 2, Some(40), 9, 8, 1);
    assert!(!poll.ok);
    assert_eq!(poll.detail, "gate_obs=Wait");
    let g = poll.gate.clone().unwrap();
    assert_eq!((g.got, g.need, g.elapsed_ms), (1, 2, Some(40)));
    assert_eq!(g.obs.as_deref(), Some("gate_obs=Wait"));
    let poll = gate_poll_step_out(true, None, 2, 2, Some(55), 9, 8, 1);
    assert_eq!(poll.detail, "gate_obs=Ready");
    let wait = gate_wait_step_out(poll, 70);
    assert_eq!(wait.step, SealStep::GateWait);
    assert_eq!(wait.duration_ms, 70);
    assert!(wait.ok);
    assert_eq!(gate_wait_timeout_ms(None, 1_500), 2_000);
    assert_eq!(gate_wait_timeout_ms(Some(10), 1_500), 10);
    assert_eq!(gate_wait_timeout_detail(2_000, 9), "gate_wait timeout_ms=2000 target_h=9");
    let timeout = gate_poll_step_out(false, Some(GateBlock::Timeout), 0, 2, None, 9, 8, 1);
    assert_eq!(timeout.detail, "gate_obs=Timeout");
    let seal = seal_commit_step_out(9, 9, 4);
    assert_eq!(seal.detail, "sealed height=9");
    let all = step_all_out(seal, vec!["w1".to_string()]);
    assert!(all.ok);
    assert_eq!(all.step, SealStep::StepAll);
    assert_eq!(all.detail, "step_all completed via SealCommit");
    assert_eq!(all.warnings, vec!["w1".to_string()]);
    assert_eq!(all.tip_h_after, 9);
}

#[test]
fn lab_seal_needs_loopback_and_a_mode() {
    let refused = |m: &str| Err((409u16, m.to_string()));
    assert_eq!(lab_seal_access(false, true, true, true), refused("lab seal RPC requires loopback access"));
    assert_eq!(
        lab_seal_access(true, true, false, true),
        refused("lab seal RPC is only allowed on the cluster proposer")
    );
    assert_eq!(lab_seal_access(true, true, true, false), Ok(()));
    assert_eq!(
        lab_seal_access(true, false, false, false),
        refused("lab seal RPC is disabled; enable --lab-seal-api or cluster proposer mode")
    );
    assert_eq!(lab_seal_access(true, false, false, true), Ok(()));
}

#[test]
fn offchain_and_dev_peer_gates() {
    assert_eq!(offchain_batch_size_ok(0), Err((400, "empty offchain batch".to_string())));
    assert_eq!(offchain_batch_size_ok(1), Ok(()));
    assert_eq!(offchain_batch_size_ok(MAX_BATCH_ENTRIES), Ok(()));
    assert_eq!(
        offchain_batch_size_ok(MAX_BATCH_ENTRIES + 1),
        Err((413, "offchain batch exceeds 4096 entries".to_string()))
    );
    assert_eq!(peer_endpoint_access(PeerEndpoint::Stats, true, false), Ok(()));
    assert_eq!(peer_endpoint_access(PeerEndpoint::Hello, false, true), Ok(()));
    assert_eq!(
        peer_endpoint_access(PeerEndpoint::Stats, false, false),
        Err((404, "peer stats endpoint is available only in dev profile or real transport mode".to_string()))
    );
    assert_eq!(
        peer_endpoint_access(PeerEndpoint::Hello, false, false),
        Err((404, "peer hello endpoint is available only in dev profile or real transport mode".to_string()))
    );
}

#[derive(Clone, Copy, Debug, PartialEq, Eq)]
enum Mode {
    Auto,
    ManualRpc,
}

#[test]
fn manual_seal_status_and_control() {
    assert_eq!(status_target_h(0, 9), 10);
    assert_eq!(status_target_h(15, 9), 15);
    assert_eq!(status_target_h(0, u64::MAX), u64::MAX);
    let rt = LeaseRuntime::new("owner".to_string());
    let att = AttSyncRes { live_n: 2, sync_n: 1, local_h: 5, peer_tip_max: 7 };
    let manual = ManualSealObs {
        target_h: 0,
        last_step: None,
        step_t0_ms: 0,
        verbose_default: false,
        verbose_until_ms: 2_000,
    };
    let st = seal_status_out(Mode::Auto, 9, manual.clone(), sync_out(att, 3), lease_out(&rt), None, 1_000);
    assert_eq!((st.mode, st.tip_h, st.target_h), (Mode::Auto, 9, 10));
    assert_eq!(st.last_step_ms, None);
    assert!(st.verbose_active);
    let st = seal_status_out(Mode::Auto, 9, manual, sync_out(att, 3), lease_out(&rt), None, 2_000);
    assert!(!st.verbose_active);
    let after = manual_after_control(Some(true), 50);
    assert_eq!((after.target_h, after.step_t0_ms, after.verbose_until_ms), (0, 50, 5_050));
    assert_eq!(after.last_step.as_deref(), Some("control"));
    let quiet = manual_after_control(None, 50);
    assert!(!quiet.verbose_default);
    assert_eq!(quiet.verbose_until_ms, 0);
    let ctl_in = SealControlIn { mode: Mode::ManualRpc, verbose_default: Some(true) };
    let st = seal_status_out(ctl_in.mode, 4, after, sync_out(att, 3), lease_out(&rt), None, 60);
    assert_eq!(st.last_step_ms, Some(50));
    let out = seal_control_out(&st, true);
    assert_eq!((out.mode, out.tip_h, out.target_h, out.verbose_active), (Mode::ManualRpc, 4, 5, true));
    assert_eq!(manual_step_mode_ok(true), Ok(()));
    assert_eq!(
        manual_step_mode_ok(false),
        Err((409, "manual seal RPC is disabled; set mode=manual_rpc first".to_string()))
    );
    let step_in = SealStepIn { step: SealStep::Propose, verbose: None, timeout_ms: Some(5), target_h: None };
    assert_eq!(step_in.step, SealStep::Propose);
}
