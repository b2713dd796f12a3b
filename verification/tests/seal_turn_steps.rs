use pwmd::lifecycle::{AttSyncRes, GateBlock, SEAL_POLL_INTERVAL_MS, SEAL_WAIT_PEER_MS};
use pwmd::seal_turn::{GateNext, PassNext, PassObs, ProducerObs, SealLoop, SealLoopCfg};

fn cfg(is_proposer: bool) -> SealLoopCfg {
    SealLoopCfg {
        nominal_ms: 1_000,
        is_proposer,
        is_attester: false,
        seal_ahead_ms: if is_proposer { 200 } else { 0 },
        quorum_k: 1,
        debug_disable: false,
        stop_h: Some(50),
    }
}

fn obs(now_ms: u64, sync_n: u8, producer: ProducerObs) -> PassObs {
    PassObs {
        now_ms,
        shutdown: false,
        manual_paused: false,
        allows_progress: true,
        tip_h: 9,
        att: AttSyncRes { live_n: sync_n, sync_n, local_h: 9, peer_tip_max: 9 },
        producer,
    }
}

#[test]
fn single_sealer_pass_reaches_lease_gate_at_deadline() {
    let mut l = SealLoop::start(cfg(false), 10_500, 9);
    assert_eq!(l.next_seal_time_ms, 11_000);
    // before the deadline: sleep towards it
    let p = l.pass(obs(10_995, 0, ProducerObs::Local));
    assert_eq!(p.next, PassNext::Sleep { ms: 5, wakeable: false });
    // at the deadline: the lease gate for the next height
    let p = l.pass(obs(11_000, 0, ProducerObs::Local));
    assert_eq!(p.next, PassNext::RunLeaseGate { target_h: 10 });
    assert_eq!(l.on_lease_gate(true, 11_000, 10, 9), GateNext::RunClusterGate);
    assert_eq!(
        l.on_cluster_gate(true, false, None, 11_003, 10, 9),
        GateNext::Seal { scheduled_next: 12_000 }
    );
    let done = l.on_sealed(10, 11_004, 12_000);
    assert_eq!(l.next_seal_time_ms, 12_000);
    assert_eq!(done.pending_summary, Some(0));
    assert!(done.drift.is_none());
    assert!(!done.stop_request);
}

#[test]
fn shutdown_and_manual_pause() {
    let mut l = SealLoop::start(cfg(true), 0, 0);
    let mut o = obs(5_000, 3, ProducerObs::Local);
    o.manual_paused = true;
    assert_eq!(l.pass(o).next, PassNext::Sleep { ms: SEAL_POLL_INTERVAL_MS, wakeable: false });
    o.shutdown = true;
    assert_eq!(l.pass(o).next, PassNext::Exit);
}

#[test]
fn proposer_nudges_once_then_waits_for_quorum() {
    let mut l = SealLoop::start(cfg(true), 10_500, 9);
    // inside the ahead window with quorum: one nudge
    let p = l.pass(obs(10_850, 1, ProducerObs::Local));
    assert_eq!(p.nudge_lead_ms, Some(150));
    assert_eq!(p.next, PassNext::Sleep { ms: 10, wakeable: true });
    let p = l.pass(obs(10_900, 1, ProducerObs::Local));
    assert_eq!(p.nudge_lead_ms, None);
    // at the deadline without sync-ready attesters: wait for peers
    let p = l.pass(obs(11_000, 0, ProducerObs::Local));
    assert_eq!(p.next, PassNext::Sleep { ms: SEAL_WAIT_PEER_MS, wakeable: false });
    assert_eq!(p.wait_sync_h, Some(10));
    let p = l.pass(obs(11_010, 0, ProducerObs::Local));
    assert_eq!(p.wait_sync_h, None);
    // quorum back: ready edge, slot opens, lease gate
    let p = l.pass(obs(11_020, 1, ProducerObs::Local));
    assert!(p.attest_ready && p.slot_opened);
    assert_eq!(p.next, PassNext::RunLeaseGate { target_h: 10 });
}

#[test]
fn proposer_waits_for_primary_then_skips() {
    let mut l = SealLoop::start(cfg(true), 10_500, 9);
    let p = l.pass(obs(11_000, 1, ProducerObs::Other));
    assert!(p.primary_wait);
    assert_eq!(p.next, PassNext::Sleep { ms: SEAL_POLL_INTERVAL_MS, wakeable: false });
    let p = l.pass(obs(12_000, 1, ProducerObs::Other));
    assert!(!p.primary_wait);
    assert_eq!(p.next, PassNext::TrySkip { lead_h: 10 });
    l.on_skip(true, 12_001);
    assert_eq!(l.next_seal_time_ms, 13_000);
    assert!(l.miss.height.is_none());
    let p = l.pass(obs(13_000, 1, ProducerObs::Unresolved { fatal: true }));
    assert_eq!(p.next, PassNext::ExitFatalPick);
}

#[test]
fn proposer_rechecks_blocked_gate_then_counts_strike() {
    let mut l = SealLoop::start(cfg(true), 10_500, 9);
    assert_eq!(l.pass(obs(11_000, 1, ProducerObs::Local)).next, PassNext::RunLeaseGate { target_h: 10 });
    assert_eq!(l.on_cluster_gate(false, false, None, 11_001, 10, 9), GateNext::RecheckClusterGate);
    assert_eq!(
        l.on_cluster_gate(false, true, Some(GateBlock::Timeout), 12_100, 10, 9),
        GateNext::Blocked { stop_request: false }
    );
    assert_eq!(l.pending_ticks, 1);
    assert_eq!(l.supp.gate_to, 1);
    assert_eq!(l.supp.slot_supp, 1);
    // a blocked lease gate at the stop height asks to stop
    assert_eq!(l.on_lease_gate(false, 12_200, 51, 50), GateNext::Blocked { stop_request: true });
    l.on_seal_failed(12_300);
    assert_eq!(l.next_seal_time_ms, 12_310);
}

#[test]
fn drift_window_closes_after_hundred_blocks() {
    let mut l = SealLoop::start(cfg(false), 0, 0);
    let done = l.on_sealed(100, 101_000, 102_000);
    let (blocks, actual, step) = done.drift.expect("drift window");
    assert_eq!((blocks, actual), (100, 101_000));
    assert_eq!(l.effective_ms, step.effective_ms);
    assert_eq!(l.drift_window_h, 100);
    assert!(l.on_sealed(150, 150_000, 151_000).drift.is_none());
}
