use pwmd::bootstrap::is_dev_profile;
use pwmd::config::{persist_diag_hint, PersistSnapKind};
use pwmd::handshake::DeploymentProfile;
use pwmd::lease::{
    run_lease_gate, step_lease, LeaseCfg, LeaseEvent, LeaseRuntime, LeaseState, LeaseStats,
};
use pwmd::lease_backend::{
    AcquireRes, LeaseBackend, LeaseBackendMode, LeaseDrop, LeaseGrant, LeaseKeep, LeaseTake,
    ProcessLocalLeaseBackend, ReleaseRes, RenewRes, TakeRes,
};
use pwmd::log_clock::template_clock;

/// The in-process store, with the kind of each request it answered.
struct RecordingStore {
    inner: ProcessLocalLeaseBackend,
    seen: Vec<&'static str>,
}

impl LeaseBackend for RecordingStore {
    fn mode(&self) -> LeaseBackendMode {
        LeaseBackendMode::ProcessLocal
    }
    fn lease_path(&self) -> Option<String> {
        None
    }
    fn acquire(&mut self, req: LeaseGrant) -> Result<AcquireRes, String> {
        self.seen.push("acquire");
        self.inner.acquire(req)
    }
    fn renew(&mut self, req: LeaseKeep) -> Result<RenewRes, String> {
        self.seen.push("renew");
        self.inner.renew(req)
    }
    fn release(&mut self, req: LeaseDrop) -> Result<ReleaseRes, String> {
        self.seen.push("release");
        self.inner.release(req)
    }
    fn takeover(&mut self, req: LeaseTake) -> Result<TakeRes, String> {
        self.seen.push("takeover");
        self.inner.takeover(req)
    }
}

/// A store whose every request fails.
struct FailingStore;

impl LeaseBackend for FailingStore {
    fn mode(&self) -> LeaseBackendMode {
        LeaseBackendMode::ProcessLocal
    }
    fn lease_path(&self) -> Option<String> {
        None
    }
    fn acquire(&mut self, _req: LeaseGrant) -> Result<AcquireRes, String> {
        Err("disk gone".to_string())
    }
    fn renew(&mut self, _req: LeaseKeep) -> Result<RenewRes, String> {
        Err("disk gone".to_string())
    }
    fn release(&mut self, _req: LeaseDrop) -> Result<ReleaseRes, String> {
        Err("disk gone".to_string())
    }
    fn takeover(&mut self, _req: LeaseTake) -> Result<TakeRes, String> {
        Err("disk gone".to_string())
    }
}

fn tight() -> LeaseCfg {
    LeaseCfg { ttl_ms: 1000, takeover_ms: 500, max_tip_lag: 0 }
}

#[test]
fn step_sends_acquire_then_renew_for_own_lease() {
    let mut be = RecordingStore { inner: ProcessLocalLeaseBackend::new(), seen: Vec::new() };
    let mut rt = LeaseRuntime::new("n1".to_string());
    let one = step_lease("vh-r", "n1", 1_000, 5, tight(), &mut rt, &mut be);
    assert_eq!(one.event, Some(LeaseEvent::Acquire));
    assert_eq!(be.seen, vec!["acquire"]);
    let two = step_lease("vh-r", "n1", 1_200, 6, tight(), &mut rt, &mut be);
    assert_eq!(two.event, Some(LeaseEvent::Renew));
    assert_eq!(be.seen, vec!["acquire", "acquire", "renew"]);
}

#[test]
fn standby_in_grace_window_sends_no_takeover() {
    let mut be = RecordingStore { inner: ProcessLocalLeaseBackend::new(), seen: Vec::new() };
    let mut a = LeaseRuntime::new("a".to_string());
    let mut b = LeaseRuntime::new("b".to_string());
    step_lease("vh-g", "a", 1_000, 10, tight(), &mut a, &mut be);
    be.seen.clear();
    // a's lease expired at 2000; the takeover window opens at 2500.
    let wait = step_lease("vh-g", "b", 2_200, 10, tight(), &mut b, &mut be);
    assert!(!wait.allow_seal);
    assert_eq!(wait.event, Some(LeaseEvent::Reject));
    assert_eq!(b.state, LeaseState::SuspectActiveLost);
    assert_eq!(b.last_reason, "takeover_wait owner=a takeover_at_ms=2500");
    assert_eq!(be.seen, vec!["acquire"]);
    // A stale tip keeps it from taking over even after the window.
    let stale = step_lease("vh-g", "b", 2_600, 9, tight(), &mut b, &mut be);
    assert!(!stale.allow_seal);
    assert_eq!(b.last_reason, "takeover_reject_stale_tip local_tip=9 required_tip=10");
    assert_eq!(be.seen, vec!["acquire", "acquire"]);
    let take = step_lease("vh-g", "b", 2_600, 10, tight(), &mut b, &mut be);
    assert!(take.allow_seal);
    assert_eq!(take.event, Some(LeaseEvent::Takeover));
    assert_eq!(be.seen, vec!["acquire", "acquire", "acquire", "takeover"]);
    assert_eq!((b.term, b.fence), (2, 2));
}

#[test]
fn lease_gate_bypassed_outside_single_sealer() {
    let mut be = RecordingStore { inner: ProcessLocalLeaseBackend::new(), seen: Vec::new() };
    let mut rt = LeaseRuntime::new("n1".to_string());
    let mut last_err = Some("earlier".to_string());
    let mut stats = LeaseStats::default();
    let r = run_lease_gate(
        DeploymentProfile::MultiSealerExperimental,
        "vh-b",
        "n1",
        1_000,
        1,
        tight(),
        &mut rt,
        &mut be,
        &mut last_err,
        &mut stats,
    );
    assert!(r.is_none());
    assert!(be.seen.is_empty());
    assert_eq!(rt.last_reason, "lease_not_acquired");
    assert_eq!(last_err.as_deref(), Some("earlier"));
    assert_eq!(stats.snapshot().acquire_ok, 0);
}

#[test]
fn lease_gate_counts_and_clears_last_error() {
    let mut be = ProcessLocalLeaseBackend::new();
    let mut rt = LeaseRuntime::new("n1".to_string());
    let mut last_err = Some("lease_backend_error old".to_string());
    let mut stats = LeaseStats::default();
    let r = run_lease_gate(
        DeploymentProfile::SingleSealer,
        "vh-c",
        "n1",
        1_000,
        1,
        tight(),
        &mut rt,
        &mut be,
        &mut last_err,
        &mut stats,
    )
    .unwrap();
    assert!(r.allow_seal);
    assert_eq!(r.event, Some(LeaseEvent::Acquire));
    assert_eq!(last_err, None);
    assert_eq!(stats.snapshot().acquire_ok, 1);
}

#[test]
fn lease_gate_keeps_store_failure() {
    let mut be = FailingStore;
    let mut rt = LeaseRuntime::new("n1".to_string());
    let mut last_err = None;
    let mut stats = LeaseStats::default();
    let r = run_lease_gate(
        DeploymentProfile::SingleSealer,
        "vh-d",
        "n1",
        1_000,
        1,
        tight(),
        &mut rt,
        &mut be,
        &mut last_err,
        &mut stats,
    )
    .unwrap();
    assert!(!r.allow_seal);
    assert_eq!(rt.state, LeaseState::FencedStandby);
    assert_eq!(last_err.as_deref(), Some("lease_backend_error disk gone"));
    assert_eq!(stats.snapshot().reject_total, 1);
}

#[test]
fn dev_profile_follows_network_id_prefix() {
    assert!(is_dev_profile("devnet"));
    assert!(is_dev_profile("dev"));
    assert!(!is_dev_profile("mainnet"));
    assert!(!is_dev_profile("de"));
    assert!(!is_dev_profile("Devnet"));
}

#[test]
fn persist_hint_names_the_data_file() {
    assert_eq!(
        persist_diag_hint(PersistSnapKind::JsonFile, "/var/lib/pwmd/state.json"),
        "json_file path=/var/lib/pwmd/state.json"
    );
}

#[test]
fn template_clock_tokens_of_known_instants() {
    let epoch = template_clock(0, 0);
    assert_eq!(epoch.date, "1970-01-01");
    assert_eq!(epoch.time, "000000");
    assert_eq!(epoch.datetime, "1970-01-01T000000");
    assert_eq!(epoch.ut, "00:00:00.000");
    let t = template_clock(1_700_000_000, 5);
    assert_eq!(t.date, "2023-11-14");
    assert_eq!(t.time, "221320");
    assert_eq!(t.datetime, "2023-11-14T221320");
    assert_eq!(t.ut, "22:13:20.005");
    let leap = template_clock(951_782_400 + 86_399, 999);
    assert_eq!(leap.date, "2000-02-29");
    assert_eq!(leap.ut, "23:59:59.999");
}
