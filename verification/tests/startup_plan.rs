use pwmd::handshake::SealRole;
use pwmd::init_state::{
    after_periodic_save, periodic_save_mode, sealed_block_enqueued, InitPhase, SealPersistMode,
};
use pwmd::lease::LeaseState;
use pwmd::lease_backend::LeaseBackendMode;
use pwmd::startup::{
    clamp_seal_ahead, cors_plan, dump_limits, initial_lease_state, lease_path_for, nonblank_value,
    peer_listen_conflict, transport_plan, unstable_member_ids, CorsPlan,
};

#[test]
fn seal_ahead_is_clamped_below_interval() {
    assert_eq!(clamp_seal_ahead(0, 1_000), 0);
    assert_eq!(clamp_seal_ahead(200, 1_000), 200);
    assert_eq!(clamp_seal_ahead(1_000, 1_000), 999);
    assert_eq!(clamp_seal_ahead(5_000, 1), 1);
}

#[test]
fn configured_values_trimmed() {
    assert_eq!(nonblank_value(Some("  tok ")), Some("tok".to_string()));
    assert_eq!(nonblank_value(Some("   ")), None);
    assert_eq!(nonblank_value(None), None);
    assert!(unstable_member_ids(true, true, None));
    assert!(unstable_member_ids(true, true, Some(" ")));
    assert!(!unstable_member_ids(true, true, Some("inst-1")));
    assert!(!unstable_member_ids(true, false, None));
}

#[test]
fn lease_and_transport_plan() {
    assert_eq!(initial_lease_state(SealRole::Active), LeaseState::ActiveSealing);
    assert_eq!(initial_lease_state(SealRole::Standby), LeaseState::StandbySyncing);
    assert_eq!(lease_path_for(LeaseBackendMode::File, "/var/lease"), Some("/var/lease".to_string()));
    assert_eq!(lease_path_for(LeaseBackendMode::ProcessLocal, "/var/lease"), None);
    assert_eq!(dump_limits(0, 0), (2, 1));
    assert_eq!(dump_limits(5, 9), (5, 9));
    let p = transport_plan(true, false);
    assert!(p.peer_listener && !p.stateful);
    assert!(transport_plan(true, true).stateful);
    assert!(!transport_plan(false, true).peer_listener);
    assert_eq!(
        peer_listen_conflict(true, true, "0.0.0.0:3030", "0.0.0.0:3030"),
        Err("peer listener must use a dedicated socket; rpc=0.0.0.0:3030 peer=0.0.0.0:3030".to_string())
    );
    assert_eq!(peer_listen_conflict(false, true, "a", "a"), Ok(()));
}

#[test]
fn periodic_saves() {
    assert_eq!(periodic_save_mode(99, true), None);
    assert_eq!(periodic_save_mode(0, true), None);
    assert_eq!(periodic_save_mode(200, true), Some(SealPersistMode::PeriodicSummary));
    assert_eq!(periodic_save_mode(100, false), Some(SealPersistMode::Periodic));
    let s = after_periodic_save(Some("d.json".to_string()), Ok(()), 200, true);
    assert_eq!(s.init.phase, InitPhase::Ready);
    assert_eq!(s.last_snapshot_height, Some(200));
    assert!(!s.rollback);
    let s = after_periodic_save(None, Err("disk".to_string()), 200, true);
    assert_eq!(s.init.phase, InitPhase::ReadyDegraded);
    assert!(s.rollback);
    assert_eq!(sealed_block_enqueued(Ok(()), None), Ok(()));
    assert_eq!(sealed_block_enqueued(Err("full".to_string()), Some(Ok(()))), Ok(()));
    assert_eq!(
        sealed_block_enqueued(Err("full".to_string()), None),
        Err("block enqueue failed without snapshot backend: full".to_string())
    );
    assert_eq!(
        sealed_block_enqueued(Err("full".to_string()), Some(Err("io".to_string()))),
        Err("block enqueue failed: full; synchronous recovery failed: io".to_string())
    );
}

#[test]
fn cors_follows_listener_and_origin_list() {
    assert_eq!(cors_plan(true, ""), Ok(CorsPlan::Permissive));
    assert_eq!(cors_plan(true, "https://a.example"), Ok(CorsPlan::Permissive));
    assert_eq!(
        cors_plan(false, " https://a.example , ,https://b.example,"),
        Ok(CorsPlan::AllowOrigins(vec![
            "https://a.example".to_string(),
            "https://b.example".to_string()
        ]))
    );
    let missing =
        "non-loopback --listen requires PWM_CORS_ORIGINS (comma-separated allow_origins)".to_string();
    assert_eq!(cors_plan(false, ""), Err(missing.clone()));
    assert_eq!(cors_plan(false, " , ,"), Err(missing));
}
