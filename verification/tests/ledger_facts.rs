use pwmd::ledger::{
    summary_log_line, CrossShardFact, CrossShardLedger, CrossShardOrigin, CrossShardStatus,
    ImportProvenance, FACT_CAP,
};

const EXPORT_ID: [u8; 32] = [0xAB; 32];

/// The export a devnet test transaction makes: domain 0x1001 sends 42 to
/// `[0x20; 32]` on domain 0x2001.
fn record_devnet_export(ledger: &mut CrossShardLedger, height: u64) {
    ledger.record_export(EXPORT_ID, 0x1001, [0x11; 32], [0x20; 32], 0x2001, 42, height, None);
}

#[test]
fn export_fact_recorded() {
    let mut ledger = CrossShardLedger::new();
    record_devnet_export(&mut ledger, 7);
    let fact = ledger.fact(&EXPORT_ID).expect("fact");
    assert_eq!(fact.status, CrossShardStatus::Exported);
    assert_eq!(fact.amount, 42);
    assert_eq!(fact.source_domain_hi, 0x10);
    assert_eq!(fact.target_domain_hi, 0x20);
}

#[test]
fn import_fact_recorded() {
    let mut ledger = CrossShardLedger::new();
    record_devnet_export(&mut ledger, 7);
    ledger.record_import(EXPORT_ID, 0x2001, [0x20; 32], 42, 9, None);
    let fact = ledger.fact(&EXPORT_ID).expect("fact");
    assert_eq!(fact.status, CrossShardStatus::Imported);
    assert_eq!(fact.first_height, 7);
    assert_eq!(fact.last_height, 9);
    assert_eq!(fact.source, Some([0x11; 32]));
    assert_eq!(ledger.summary().total_imported_count, 1);
}

#[test]
fn import_without_known_export_uses_provenance() {
    let mut ledger = CrossShardLedger::new();
    let prov = ImportProvenance { source_domain_hi: 0x30, amount: 77, to: [5; 32] };
    ledger.record_import([1; 32], 0x2001, [9; 32], 10, 4, Some(prov));
    let f = ledger.fact(&[1; 32]).expect("fact");
    assert_eq!((f.source_domain_hi, f.amount, f.to), (0x30, 77, [5; 32]));
    ledger.record_import([2; 32], 0x2001, [9; 32], 10, 4, None);
    let g = ledger.fact(&[2; 32]).expect("fact");
    assert_eq!((g.source_domain_hi, g.amount, g.to, g.source), (0, 10, [9; 32], None));
}

#[test]
fn peer_row_keep_imp() {
    let mut ledger = CrossShardLedger::new();
    record_devnet_export(&mut ledger, 7);
    let mut fact = *ledger.fact(&EXPORT_ID).expect("fact");
    fact.status = CrossShardStatus::Imported;
    fact.last_height = 8;
    assert!(ledger.insert_peer_fact(fact));
    assert_eq!(
        ledger.fact(&EXPORT_ID).expect("fact").status,
        CrossShardStatus::Imported
    );
}

#[test]
fn regression_refused_and_local_origin_kept() {
    let mut ledger = CrossShardLedger::new();
    record_devnet_export(&mut ledger, 7);
    let mut fact = *ledger.fact(&EXPORT_ID).expect("fact");
    fact.status = CrossShardStatus::Imported;
    assert!(ledger.insert_peer_fact(fact));
    let stored = *ledger.fact(&EXPORT_ID).expect("fact");
    assert_eq!(stored.origin, CrossShardOrigin::Local);
    let mut back = stored;
    back.status = CrossShardStatus::Registered;
    assert!(!ledger.insert_fact(back));
    assert_eq!(*ledger.fact(&EXPORT_ID).expect("fact"), stored);
    assert!(!ledger.insert_fact(stored));
}

#[test]
fn trusted_obs_label_ok() {
    let mut peer_ledger = CrossShardLedger::new();
    record_devnet_export(&mut peer_ledger, 7);
    let fact = *peer_ledger.fact(&EXPORT_ID).expect("fact");

    let mut ledger = CrossShardLedger::new();
    assert!(ledger.insert_peer_fact(fact));

    let summary = ledger.summary();
    assert_eq!(summary.scope, "local_plus_trusted_peer_observations");
    assert_eq!(summary.trusted_peer_observed_count, 1);
    assert_eq!(summary.by_domain_hi[0].trusted_peer_observed_count, 1);
}

#[test]
fn summary_format_is_compact() {
    let mut ledger = CrossShardLedger::new();
    record_devnet_export(&mut ledger, 7);
    let line = summary_log_line(&ledger.summary());
    assert!(line.contains("export/import summary"));
    assert!(line.contains("pending_count=1"));
    assert!(line.contains("0x20"));
}

#[test]
fn summary_line_exact_text() {
    let mut ledger = CrossShardLedger::new();
    record_devnet_export(&mut ledger, 7);
    ledger.record_import([3; 32], 0x1001, [1; 32], 5, 8, Some(ImportProvenance { source_domain_hi: 0x20, amount: 5, to: [1; 32] }));
    let line = summary_log_line(&ledger.summary());
    assert_eq!(
        line,
        "export/import summary: scope=local_plus_trusted_peer_observations exported_count=2 exported_amount=47 imported_count=1 imported_amount=5 pending_count=1 trusted_peer_observed_count=0 domains=0x10:ex=1/5 im=0/0 pend=0 peer_obs=0,0x20:ex=1/42 im=1/5 pend=1 peer_obs=0"
    );
}

#[test]
fn facts_target_ordered_by_height() {
    let mut ledger = CrossShardLedger::new();
    let mk = |id: u8, h: u64| CrossShardFact {
        export_id: [id; 32],
        source_domain_hi: 0x20,
        target_domain_hi: 0x10,
        amount: 1,
        status: CrossShardStatus::Registered,
        first_height: h,
        last_height: h,
        source: Some([1u8; 32]),
        to: [2u8; 32],
        intent_id: None,
        origin: CrossShardOrigin::Local,
    };
    assert!(ledger.insert_fact(mk(0x03, 12)));
    assert!(ledger.insert_fact(mk(0x01, 10)));
    assert!(ledger.insert_fact(mk(0x02, 10)));
    let rows = ledger.facts_for_target(0x10, 10, 2);
    assert_eq!(rows.len(), 2);
    assert_eq!(rows[0].last_height, 10);
    assert_eq!(rows[0].export_id, [0x01; 32]);
    assert_eq!(rows[1].last_height, 10);
    assert_eq!(rows[1].export_id, [0x02; 32]);
    assert_eq!(ledger.facts_for_target(0x10, 11, 0).len(), 1);
    assert!(ledger.facts_for_target(0x99, 0, 10).is_empty());
}

#[test]
fn ledger_caps_and_drops_oldest() {
    let mut ledger = CrossShardLedger::new();
    for i in 0..(FACT_CAP as u32 + 1) {
        let mut id = [0u8; 32];
        id[..4].copy_from_slice(&i.to_be_bytes());
        ledger.record_handoff(id, 1, [0; 32], [0; 32], 0x0200, 1, 100 + i as u64, None);
    }
    assert_eq!(ledger.len(), FACT_CAP);
    assert!(ledger.fact(&[0u8; 32]).is_none());
    let facts = ledger.facts();
    assert_eq!(facts.len(), FACT_CAP);
    assert!(facts.windows(2).all(|w| w[0].export_id < w[1].export_id));
}

#[test]
fn accepted_update_keeps_earliest_first_height() {
    let mut ledger = CrossShardLedger::new();
    record_devnet_export(&mut ledger, 7);
    let mut fact = *ledger.fact(&EXPORT_ID).expect("fact");
    fact.status = CrossShardStatus::Registered;
    fact.first_height = 3;
    fact.last_height = 9;
    assert!(ledger.insert_peer_fact(fact));
    let stored = *ledger.fact(&EXPORT_ID).expect("fact");
    assert_eq!(stored.status, CrossShardStatus::Registered);
    assert_eq!(stored.first_height, 3);
    assert_eq!(stored.origin, CrossShardOrigin::Local);
    let mut later = stored;
    later.status = CrossShardStatus::Imported;
    later.first_height = 12;
    assert!(ledger.insert_fact(later));
    assert_eq!(ledger.fact(&EXPORT_ID).expect("fact").first_height, 3);
}
