use pwmd::lease::{step_lease, LeaseCfg, LeaseEvent, LeaseRuntime, LeaseState};
use pwmd::lease_backend::{
    AcquireRes, LeaseBackend, LeaseBackendMode, LeaseDrop, LeaseGrant, LeaseKeep, LeaseTake,
    ProcessLocalLeaseBackend, ReleaseRes, RenewRes, TakeRes,
};

/// A backend whose every call fails, as a broken lease store would.
struct ErrLeaseBackend {
    msg: &'static str,
}

impl LeaseBackend for ErrLeaseBackend {
    fn mode(&self) -> LeaseBackendMode {
        LeaseBackendMode::ProcessLocal
    }
    fn lease_path(&self) -> Option<String> {
        None
    }
    fn acquire(&mut self, _req: LeaseGrant) -> Result<AcquireRes, String> {
        Err(self.msg.to_string())
    }
    fn renew(&mut self, _req: LeaseKeep) -> Result<RenewRes, String> {
        Err(self.msg.to_string())
    }
    fn release(&mut self, _req: LeaseDrop) -> Result<ReleaseRes, String> {
        Err(self.msg.to_string())
    }
    fn takeover(&mut self, _req: LeaseTake) -> Result<TakeRes, String> {
        Err(self.msg.to_string())
    }
}

#[test]
fn step_lease_backend_err_closed() {
    let cfg = LeaseCfg::default();
    let mut be = ErrLeaseBackend { msg: "boom" };
    let mut rt = LeaseRuntime::new("n1".to_string());
    let step = step_lease("vh-x", "n1", 1_000, 3, cfg, &mut rt, &mut be);
    assert!(!step.allow_seal);
    assert_eq!(step.event, Some(LeaseEvent::Reject));
    assert_eq!(rt.state, LeaseState::FencedStandby);
    assert!(
        rt.last_reason.starts_with("lease_backend_error "),
        "reason={}",
        rt.last_reason
    );
    assert!(rt.last_reason.contains("boom"), "reason={}", rt.last_reason);
}

#[test]
fn lease_renew_ok_same_owner() {
    let cfg = LeaseCfg::default();
    let mut be = ProcessLocalLeaseBackend::new();
    let mut rt = LeaseRuntime::new("n1".to_string());
    let one = step_lease("vh-1", "n1", 1_000, 5, cfg, &mut rt, &mut be);
    assert!(one.allow_seal);
    assert_eq!(one.event, Some(LeaseEvent::Acquire));
    let two = step_lease("vh-1", "n1", 1_500, 6, cfg, &mut rt, &mut be);
    assert!(two.allow_seal);
    assert_eq!(two.event, Some(LeaseEvent::Renew));
}

#[test]
fn lease_takeover_after_timeout() {
    let cfg = LeaseCfg {
        ttl_ms: 1_000,
        takeover_ms: 500,
        max_tip_lag: 0,
    };
    let mut be = ProcessLocalLeaseBackend::new();
    let mut a = LeaseRuntime::new("a".to_string());
    let mut b = LeaseRuntime::new("b".to_string());
    let _ = step_lease("vh-2", "a", 1_000, 10, cfg, &mut a, &mut be);
    let blocked = step_lease("vh-2", "b", 1_200, 10, cfg, &mut b, &mut be);
    assert!(!blocked.allow_seal);
    assert_eq!(b.state, LeaseState::StandbySyncing);
    let takeover = step_lease("vh-2", "b", 2_600, 10, cfg, &mut b, &mut be);
    assert!(takeover.allow_seal);
    assert_eq!(takeover.event, Some(LeaseEvent::Takeover));
}

#[test]
fn old_active_blocked_without_lease() {
    let cfg = LeaseCfg {
        ttl_ms: 1_000,
        takeover_ms: 500,
        max_tip_lag: 0,
    };
    let mut be = ProcessLocalLeaseBackend::new();
    let mut a = LeaseRuntime::new("a".to_string());
    let mut b = LeaseRuntime::new("b".to_string());
    let _ = step_lease("vh-3", "a", 1_000, 5, cfg, &mut a, &mut be);
    let _ = step_lease("vh-3", "b", 2_600, 5, cfg, &mut b, &mut be);
    let blocked = step_lease("vh-3", "a", 2_650, 5, cfg, &mut a, &mut be);
    assert!(!blocked.allow_seal);
    assert_eq!(blocked.event, Some(LeaseEvent::Loss));
    assert_eq!(a.state, LeaseState::StandbySyncing);
}

#[test]
fn lease_release_cas_ok() {
    let cfg = LeaseCfg::default();
    let mut be = ProcessLocalLeaseBackend::new();
    let mut rt = LeaseRuntime::new("n9".to_string());
    let _ = step_lease("vh-rel", "n9", 1_000, 4, cfg, &mut rt, &mut be);
    let got = be
        .release(LeaseDrop {
            vh: "vh-rel",
            owner: &rt.owner_id,
            exp_term: rt.term,
            exp_fence: rt.fence,
        })
        .expect("release");
    assert_eq!(got, ReleaseRes::Released);
}

#[test]
fn release_by_other_owner_is_refused() {
    let cfg = LeaseCfg::default();
    let mut be = ProcessLocalLeaseBackend::new();
    let mut rt = LeaseRuntime::new("n9".to_string());
    let _ = step_lease("vh-rel2", "n9", 1_000, 4, cfg, &mut rt, &mut be);
    let got = be
        .release(LeaseDrop {
            vh: "vh-rel2",
            owner: "intruder",
            exp_term: rt.term,
            exp_fence: rt.fence,
        })
        .expect("release");
    assert_eq!(got, ReleaseRes::NotOwner);
}

#[test]
fn takeover_bumps_fence_and_term() {
    let cfg = LeaseCfg {
        ttl_ms: 1_000,
        takeover_ms: 500,
        max_tip_lag: 0,
    };
    let mut be = ProcessLocalLeaseBackend::new();
    let mut a = LeaseRuntime::new("a".to_string());
    let mut b = LeaseRuntime::new("b".to_string());
    let _ = step_lease("vh-f", "a", 1_000, 10, cfg, &mut a, &mut be);
    let _ = step_lease("vh-f", "b", 2_600, 10, cfg, &mut b, &mut be);
    assert!(b.fence > a.fence);
    assert!(b.term > a.term);
    assert_eq!(b.state, LeaseState::ActiveSealing);
}

#[test]
fn suspect_then_takeover_sequence() {
    let cfg = LeaseCfg {
        ttl_ms: 1_000,
        takeover_ms: 500,
        max_tip_lag: 0,
    };
    let mut be = ProcessLocalLeaseBackend::new();
    let mut a = LeaseRuntime::new("a".to_string());
    let mut b = LeaseRuntime::new("b".to_string());
    let a_boot = step_lease("vh-sim", "a", 1_000, 10, cfg, &mut a, &mut be);
    assert!(a_boot.allow_seal);
    let b_blocked = step_lease("vh-sim", "b", 1_100, 10, cfg, &mut b, &mut be);
    assert!(!b_blocked.allow_seal);
    let b_wait = step_lease("vh-sim", "b", 2_200, 10, cfg, &mut b, &mut be);
    assert!(!b_wait.allow_seal);
    assert_eq!(b.state, LeaseState::SuspectActiveLost);
    let b_take = step_lease("vh-sim", "b", 2_600, 10, cfg, &mut b, &mut be);
    assert!(b_take.allow_seal);
    assert_eq!(b_take.event, Some(LeaseEvent::Takeover));
    let a_old = step_lease("vh-sim", "a", 2_650, 10, cfg, &mut a, &mut be);
    assert!(!a_old.allow_seal);
}

#[test]
fn lease_stats_count_each_event() {
    let mut s = pwmd::lease::LeaseStats::default();
    for ev in [
        LeaseEvent::Acquire,
        LeaseEvent::Renew,
        LeaseEvent::Renew,
        LeaseEvent::Takeover,
        LeaseEvent::Loss,
        LeaseEvent::Reject,
        LeaseEvent::Reject,
        LeaseEvent::Reject,
    ] {
        s.on_event(ev);
    }
    let out = s.snapshot();
    assert_eq!(
        (out.acquire_ok, out.renew_ok, out.takeover_ok, out.loss_total, out.reject_total),
        (1, 2, 1, 1, 3)
    );
}
