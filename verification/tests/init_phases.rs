use pwmd::init_state::{
    after_snapshot_load, after_state_save, init_blocked_reason, prep_log_due, snap_startup_mode, summary_align,
    BlocksStored, InitPhase, InitState, SaveFailPolicy, SnapLoadResult, SummaryAlign, PREP_SUMMARY_IV_SEC,
};

#[test]
fn init_prep_throttle_loading() {
    let init = InitState::loading(None);
    assert_eq!(init.phase, InitPhase::LoadingSnapshot);
    assert_eq!(init_blocked_reason(init.phase), Some("loading_snapshot"));
    let now = 1_000_000u64;
    assert!(prep_log_due(now - PREP_SUMMARY_IV_SEC * 1000, now));
    assert!(!prep_log_due(now - (PREP_SUMMARY_IV_SEC - 1) * 1000, now));
}

#[test]
fn init_phases_and_readiness() {
    assert_eq!(init_blocked_reason(InitPhase::Starting), Some("starting"));
    assert_eq!(init_blocked_reason(InitPhase::Ready), None);
    assert_eq!(InitPhase::ReadyDegraded.as_str(), "ready_degraded");
    assert!(!InitState::loading(None).is_ready());
    assert!(InitState::ready(None).allows_chain_progress());
    let d = InitState::ready_degraded(Some("pwm-data.json".to_string()), "bad root".to_string());
    assert!(d.is_ready());
    assert_eq!(d.snapshot_error.as_deref(), Some("bad root"));
}

#[test]
fn snapshot_load_outcomes() {
    let path = Some("data/pwm-data.json".to_string());
    let s = after_snapshot_load(path.clone(), None, SnapLoadResult::Loaded { tip_h: 40 }, true);
    assert_eq!(s.init.phase, InitPhase::Ready);
    assert_eq!(s.last_snapshot_height, Some(40));
    assert!(!s.exit);
    let s = after_snapshot_load(path.clone(), None, SnapLoadResult::Empty, true);
    assert_eq!(s.last_snapshot_height, Some(0));
    let s = after_snapshot_load(path.clone(), None, SnapLoadResult::LoadFailed("io".to_string()), true);
    assert_eq!(s.init.phase, InitPhase::ReadyDegraded);
    assert!(s.exit);
    let s = after_snapshot_load(path.clone(), None, SnapLoadResult::IntoRuntimeFailed("root".to_string()), false);
    assert_eq!(s.init.snapshot_error.as_deref(), Some("root"));
    assert!(!s.exit);
    let s = after_snapshot_load(path, Some("genesis.json".to_string()), SnapLoadResult::NoBackend, true);
    assert_eq!(s.init.snapshot_file.as_deref(), Some("genesis.json"));
    assert_eq!(snap_startup_mode(BlocksStored::Epochs), "epochs");
    assert_eq!(snap_startup_mode(BlocksStored::Inline), "inline");
}

#[test]
fn summary_align_cases() {
    assert_eq!(summary_align(false, false, Ok(Some(5)), 5), SummaryAlign::NotVerified);
    assert_eq!(summary_align(true, false, Ok(None), 5), SummaryAlign::ManifestMissing);
    assert_eq!(summary_align(true, false, Err(()), 5), SummaryAlign::ManifestReadErr);
    assert_eq!(summary_align(true, false, Ok(Some(6)), 5), SummaryAlign::TipMismatch);
    assert_eq!(summary_align(true, true, Ok(Some(5)), 5), SummaryAlign::Align { lag_forced: true });
}

#[test]
fn rpc_save_outcome() {
    let step = after_state_save(None, SaveFailPolicy::KeepInMemory);
    assert!(!step.rollback && step.init.is_none());
    assert_eq!(step.answer, Ok(()));
    let step = after_state_save(Some((Some("snap.json".to_string()), Ok(()))), SaveFailPolicy::KeepInMemory);
    let st = step.init.expect("state");
    assert_eq!(st.phase, InitPhase::Ready);
    assert_eq!(st.snapshot_file.as_deref(), Some("snap.json"));
    assert_eq!(step.answer, Ok(()));
    let step = after_state_save(Some((None, Err("disk full".to_string()))), SaveFailPolicy::KeepInMemory);
    assert!(!step.rollback);
    let st = step.init.expect("state");
    assert_eq!(st.phase, InitPhase::ReadyDegraded);
    assert_eq!(st.snapshot_error.as_deref(), Some("disk full"));
    assert_eq!(
        step.answer,
        Err((500, "state persisted in memory but snapshot save failed: disk full".to_string()))
    );
}

#[test]
fn commit_save_outcome() {
    let saved = Some((Some("d.json".to_string()), Ok(())));
    let step = after_state_save(saved, SaveFailPolicy::UndoCommit);
    assert!(!step.rollback);
    assert_eq!(step.init.expect("state").phase, InitPhase::Ready);
    let failed = || Some((Some("d.json".to_string()), Err("io".to_string())));
    let step = after_state_save(failed(), SaveFailPolicy::UndoCommit);
    assert!(step.rollback);
    assert!(step.init.is_none());
    assert_eq!(step.answer, Err((500, "tx commit rolled back: snapshot save failed: io".to_string())));
    let step = after_state_save(failed(), SaveFailPolicy::UndoFinalize);
    assert!(step.rollback);
    assert_eq!(step.init.expect("state").phase, InitPhase::ReadyDegraded);
    assert_eq!(step.answer, Err((500, "snapshot save failed: io".to_string())));
    let step = after_state_save(failed(), SaveFailPolicy::UndoRegister);
    assert!(step.rollback);
    assert_eq!(step.init.expect("state").snapshot_error.as_deref(), Some("io"));
    assert_eq!(step.answer, Err((500, "state rolled back; snapshot save failed: io".to_string())));
}
