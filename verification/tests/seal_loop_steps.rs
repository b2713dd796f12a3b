use pwmd::seal_loop::{
    attesters_ready_edge, drift_step, drift_window_closes, is_local_producer, may_skip_missed,
    pick_fatal_diag, prep_wait, requeue_after_failure, seal_entry_indices, stop_due, MissWatch,
    PendingTx, ProdPickFatalDiag, TurnWatch,
};

#[test]
fn turn_watchdog_alerts_once_per_deadline() {
    let mut w = TurnWatch::new();
    let mut alerts = 0;
    for _ in 0..50 {
        if w.on_attempt(1_000, true) {
            alerts += 1;
        }
    }
    assert_eq!(alerts, 1);
    assert_eq!(w.microcycles, 50);
    // a new deadline starts a new count
    let mut fired_at = None;
    for pass in 1..=30 {
        if w.on_attempt(2_000, true) {
            fired_at = Some(pass);
        }
    }
    assert_eq!(fired_at, Some(21));
    // followers never alert
    let mut f = TurnWatch::new();
    assert!((0..100).all(|_| !f.on_attempt(1_000, false)));
    w.reset();
    assert_eq!(w, TurnWatch::new());
}

#[test]
fn primary_wait_then_failover() {
    let mut m = MissWatch::new();
    let step = m.on_not_local(7, 1_000, 1_000, true);
    assert!(step.started);
    assert!(!step.try_skip);
    let step = m.on_not_local(7, 1_500, 1_000, true);
    assert!(!step.started);
    assert!(!step.try_skip);
    let step = m.on_not_local(7, 2_000, 1_000, true);
    assert!(step.try_skip);
    let step = m.on_not_local(7, 5_000, 1_000, false);
    assert!(!step.try_skip);
    let step = m.on_not_local(8, 5_000, 1_000, true);
    assert!(step.started);
    assert_eq!(m.since_ms, 5_000);
    m.clear();
    assert_eq!(m.height, None);
}

#[test]
fn prep_timer_and_ready_edge() {
    let mut since = 0u64;
    assert_eq!(prep_wait(&mut since, 10_000), (10_000, 0));
    assert_eq!(prep_wait(&mut since, 42_500), (10_000, 32));
    let mut was = false;
    assert!(attesters_ready_edge(&mut was, true));
    assert!(!attesters_ready_edge(&mut was, true));
    assert!(!attesters_ready_edge(&mut was, false));
    assert!(attesters_ready_edge(&mut was, true));
    assert!(stop_due(10, Some(10)));
    assert!(!stop_due(9, Some(10)));
    assert!(!stop_due(9, None));
}

#[test]
fn drift_window_steps() {
    assert!(drift_window_closes(200, 100));
    assert!(!drift_window_closes(199, 100));
    assert!(!drift_window_closes(5, 100));
    // inside the deadband: unchanged
    let s = drift_step(1_000, 1_000, 100, 100_050);
    assert_eq!((s.effective_ms, s.adjust_ppm, s.clamp_applied), (1_000, 0, false));
    // slow window: one step shorter, within the envelope
    let s = drift_step(1_000, 1_000, 100, 110_000);
    assert_eq!((s.effective_ms, s.adjust_ppm, s.clamp_applied), (990, -10_000, false));
    // already at the floor: a further step is clamped back
    let s = drift_step(990, 1_000, 100, 110_000);
    assert_eq!((s.effective_ms, s.clamp_applied), (990, true));
}

fn tx(sender: u8, nonce: u64, hash: u8) -> PendingTx {
    PendingTx { sender: [sender; 32], nonce, hash: [hash; 32] }
}

#[test]
fn requeue_drops_bad_and_stale() {
    let txs = vec![
        tx(1, 5, 10),
        tx(2, 3, 11), // unapplicable
        tx(2, 2, 12), // same sender, nonce behind chain: stale
        tx(3, 9, 13),
        tx(2, 9, 14), // same sender, nonce ahead: kept
    ];
    let (kept, evicted) = requeue_after_failure(&txs, 1, 4);
    assert_eq!(kept, vec![0, 3, 4]);
    assert_eq!(evicted, vec![[11; 32], [12; 32]]);
    let (kept, evicted) = requeue_after_failure(&txs, 0, 0);
    assert_eq!(kept, vec![1, 2, 3, 4]);
    assert_eq!(evicted, vec![[10; 32]]);
}

#[test]
fn seal_skips_evicted_and_duplicate_entries() {
    let h = |b: u8| [b; 32];
    let hashes = vec![h(1), h(2), h(1), h(3), h(2), h(4)];
    let evicted = vec![h(3)];
    assert_eq!(seal_entry_indices(&hashes, &evicted), vec![0, 1, 5]);
    assert_eq!(seal_entry_indices(&hashes, &vec![]), vec![0, 1, 3, 5]);
    assert_eq!(seal_entry_indices(&vec![], &evicted), Vec::<usize>::new());
    // an evicted first copy lets no later copy through either
    assert_eq!(seal_entry_indices(&vec![h(7), h(7)], &vec![h(7)]), Vec::<usize>::new());
}

#[test]
fn local_producer_matches_member_slot() {
    let members = vec!["node-a".to_string(), "node-b".to_string()];
    assert!(is_local_producer(" node-b ", &members, 1));
    assert!(!is_local_producer("node-b", &members, 0));
    assert!(!is_local_producer("node-b", &members, 2));
    assert!(!is_local_producer("   ", &members, 0));
}

#[test]
fn only_next_height_may_be_skipped() {
    assert!(may_skip_missed(9, 10));
    assert!(!may_skip_missed(9, 11));
    assert!(!may_skip_missed(9, 9));
    assert!(may_skip_missed(u64::MAX, u64::MAX));
}

#[test]
fn fatal_pick_diagnosis_reports_largest_stake() {
    let stakes = vec![Some(5u128), None, Some(40), Some(12)];
    assert_eq!(
        pick_fatal_diag(true, true, 7, 8, 100, &stakes),
        Some(ProdPickFatalDiag { tip_h: 7, lead_h: 8, min_stake: 100, max_val_stake: 40, val_n: 4 })
    );
    assert_eq!(pick_fatal_diag(false, true, 7, 8, 100, &stakes), None);
    assert_eq!(pick_fatal_diag(true, false, 7, 8, 100, &stakes), None);
    assert_eq!(
        pick_fatal_diag(true, true, 0, 1, 0, &vec![None]).map(|d| d.max_val_stake),
        Some(0)
    );
}

#[test]
fn dedup_seal_entries_removes_dup() {
    // the same transaction, raw and pre-validated: the first entry stays
    let tx_hash = [7u8; 32];
    let kept = seal_entry_indices(&vec![tx_hash, tx_hash], &vec![]);
    assert_eq!(kept.len(), 1);
    assert_eq!(kept, vec![0]);
}

#[test]
fn eviction_skip_set() {
    let evicted = [7u8; 32];
    let kept_hash = [8u8; 32];
    let hashes = vec![evicted];
    let kept = seal_entry_indices(&vec![evicted, kept_hash], &hashes);
    assert_eq!(kept.len(), 1);
    assert_eq!([evicted, kept_hash][kept[0]], kept_hash);
}
