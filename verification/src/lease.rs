//! Lease runtime state machine: decides, one step at a time, whether this node
//! may seal, from the answers of a compare-and-swap lease backend.

use crate::lease_backend::{
    acquire_fact, renew_fact, sat_add, take_fact, AcquireRes, LeaseBackend, LeaseCall, LeaseGrant,
    LeaseKeep, LeaseRec, LeaseRecView, LeaseTake, RenewRes, TakeRes,
};
use crate::handshake::DeploymentProfile;
use crate::text::{dec, push_dec, starts_with, str_eq};
use vstd::prelude::*;
use vstd::string::*;

verus! {

#[derive(Clone, Copy, Debug, PartialEq, Eq, Structural)]
pub enum LeaseState {
    ActiveSealing,
    StandbySyncing,
    SuspectActiveLost,
    FencedStandby,
}

#[derive(Clone, Copy, Debug)]
pub struct LeaseCfg {
    pub ttl_ms: u64,
    pub takeover_ms: u64,
    pub max_tip_lag: u64,
}

impl Default for LeaseCfg {
    fn default() -> (r: Self)
        ensures
            r.ttl_ms == 10_000,
            r.takeover_ms == 8_000,
            r.max_tip_lag == 1,
    {
        LeaseCfg { ttl_ms: 10_000, takeover_ms: 8_000, max_tip_lag: 1 }
    }
}

#[derive(Clone, Debug)]
pub struct LeaseRuntime {
    pub owner_id: String,
    pub term: u64,
    pub expires_at_ms: u64,
    pub last_tip: u64,
    pub fence: u64,
    pub allow_seal: bool,
    pub state: LeaseState,
    pub last_reason: String,
}

pub struct LeaseRuntimeView {
    pub owner_id: Seq<char>,
    pub term: u64,
    pub expires_at_ms: u64,
    pub last_tip: u64,
    pub fence: u64,
    pub allow_seal: bool,
    pub state: LeaseState,
    pub last_reason: Seq<char>,
}

impl View for LeaseRuntime {
    type V = LeaseRuntimeView;

    open spec fn view(&self) -> LeaseRuntimeView {
        LeaseRuntimeView {
            owner_id: self.owner_id@,
            term: self.term,
            expires_at_ms: self.expires_at_ms,
            last_tip: self.last_tip,
            fence: self.fence,
            allow_seal: self.allow_seal,
            state: self.state,
            last_reason: self.last_reason@,
        }
    }
}

impl LeaseRuntime {
    /// A runtime that has not acquired any lease yet.
    pub fn new(owner_id: String) -> (r: Self)
        ensures
            r.owner_id == owner_id,
            r.term == 0,
            r.expires_at_ms == 0,
            r.last_tip == 0,
            r.fence == 0,
            !r.allow_seal,
            r.state == LeaseState::StandbySyncing,
            r.last_reason@ == "lease_not_acquired"@,
    {
        LeaseRuntime {
            owner_id,
            term: 0,
            expires_at_ms: 0,
            last_tip: 0,
            fence: 0,
            allow_seal: false,
            state: LeaseState::StandbySyncing,
            last_reason: String::from_str("lease_not_acquired"),
        }
    }
}

/// Lease fields advertised to peers.
#[derive(Clone, Debug)]
pub struct LeaseSignal {
    pub owner_id: String,
    pub term: u64,
    pub expires_at_ms: u64,
    pub last_tip: u64,
    pub fence: u64,
}

#[derive(Clone, Copy, Debug, PartialEq, Eq, Structural)]
pub enum LeaseEvent {
    Acquire,
    Renew,
    Takeover,
    Loss,
    Reject,
}

#[derive(Clone, Debug, PartialEq, Eq, Structural)]
pub struct LeaseStep {
    pub allow_seal: bool,
    pub event: Option<LeaseEvent>,
}

/// Counters of lease events.
#[derive(Debug)]
pub struct LeaseStats {
    acquire_ok: u64,
    renew_ok: u64,
    loss_total: u64,
    reject_total: u64,
    takeover_ok: u64,
}

#[derive(Clone, Debug, PartialEq, Eq, Structural)]
pub struct LeaseStatsOut {
    pub acquire_ok: u64,
    pub renew_ok: u64,
    pub loss_total: u64,
    pub reject_total: u64,
    pub takeover_ok: u64,
}

/// Counter increment that wraps at `u64::MAX`, like an atomic `fetch_add`.
pub open spec fn bump(x: u64) -> u64 {
    if x == u64::MAX {
        0
    } else {
        (x + 1) as u64
    }
}

/// Counters after one more event `ev`.
pub open spec fn counted(s: LeaseStatsOut, ev: LeaseEvent) -> LeaseStatsOut {
    match ev {
        LeaseEvent::Acquire => LeaseStatsOut { acquire_ok: bump(s.acquire_ok), ..s },
        LeaseEvent::Renew => LeaseStatsOut { renew_ok: bump(s.renew_ok), ..s },
        LeaseEvent::Takeover => LeaseStatsOut { takeover_ok: bump(s.takeover_ok), ..s },
        LeaseEvent::Loss => LeaseStatsOut { loss_total: bump(s.loss_total), ..s },
        LeaseEvent::Reject => LeaseStatsOut { reject_total: bump(s.reject_total), ..s },
    }
}

fn bump_exec(x: u64) -> (r: u64)
    ensures
        r == bump(x),
{
    if x == u64::MAX {
        0
    } else {
        x + 1
    }
}

impl View for LeaseStats {
    type V = LeaseStatsOut;

    closed spec fn view(&self) -> LeaseStatsOut {
        LeaseStatsOut {
            acquire_ok: self.acquire_ok,
            renew_ok: self.renew_ok,
            loss_total: self.loss_total,
            reject_total: self.reject_total,
            takeover_ok: self.takeover_ok,
        }
    }
}

impl Default for LeaseStats {
    fn default() -> (r: Self)
        ensures
            r@ == (LeaseStatsOut {
                acquire_ok: 0,
                renew_ok: 0,
                loss_total: 0,
                reject_total: 0,
                takeover_ok: 0,
            }),
    {
        LeaseStats { acquire_ok: 0, renew_ok: 0, loss_total: 0, reject_total: 0, takeover_ok: 0 }
    }
}

impl LeaseStats {
    /// Counts one event in the counter it belongs to.
    pub fn on_event(&mut self, ev: LeaseEvent)
        ensures
            final(self)@ == counted(old(self)@, ev),
    {
        match ev {
            LeaseEvent::Acquire => {
                self.acquire_ok = bump_exec(self.acquire_ok);
            },
            LeaseEvent::Renew => {
                self.renew_ok = bump_exec(self.renew_ok);
            },
            LeaseEvent::Takeover => {
                self.takeover_ok = bump_exec(self.takeover_ok);
            },
            LeaseEvent::Loss => {
                self.loss_total = bump_exec(self.loss_total);
            },
            LeaseEvent::Reject => {
                self.reject_total = bump_exec(self.reject_total);
            },
        }
    }

    /// Current counter values.
    pub fn snapshot(&self) -> (r: LeaseStatsOut)
        ensures
            r == self@,
    {
        LeaseStatsOut {
            acquire_ok: self.acquire_ok,
            renew_ok: self.renew_ok,
            loss_total: self.loss_total,
            reject_total: self.reject_total,
            takeover_ok: self.takeover_ok,
        }
    }
}

// ---------------------------------------------------------------------------
// Reason strings
// ---------------------------------------------------------------------------

pub open spec fn loss_label_spec(rec: LeaseRecView) -> Seq<char> {
    "owner="@ + rec.owner_id + " term="@ + dec(rec.term as nat) + " fence="@ + dec(
        rec.fence as nat,
    ) + " expiry="@ + dec(rec.expiry as nat)
}

pub open spec fn held_reason(rec: LeaseRecView) -> Seq<char> {
    "lease_held_by_peer owner="@ + rec.owner_id + " term="@ + dec(rec.term as nat)
        + " expires_at_ms="@ + dec(rec.expiry as nat)
}

pub open spec fn wait_reason(rec: LeaseRecView, take_at: u64) -> Seq<char> {
    "takeover_wait owner="@ + rec.owner_id + " takeover_at_ms="@ + dec(take_at as nat)
}

pub open spec fn stale_reason(tip_h: u64, rec: LeaseRecView) -> Seq<char> {
    "takeover_reject_stale_tip local_tip="@ + dec(tip_h as nat) + " required_tip="@ + dec(
        rec.last_tip as nat,
    )
}

fn loss_label(rec: &LeaseRec) -> (r: String)
    ensures
        r@ == loss_label_spec(rec@),
{
    let mut s = String::from_str("owner=");
    s.append(rec.owner_id.as_str());
    s.append(" term=");
    push_dec(&mut s, rec.term);
    s.append(" fence=");
    push_dec(&mut s, rec.fence);
    s.append(" expiry=");
    push_dec(&mut s, rec.expiry);
    s
}

// ---------------------------------------------------------------------------
// Decision model
// ---------------------------------------------------------------------------

/// Backend failure: fail closed.
pub open spec fn fenced_rt(rt: LeaseRuntimeView, e: Seq<char>) -> LeaseRuntimeView {
    LeaseRuntimeView {
        allow_seal: false,
        state: LeaseState::FencedStandby,
        last_reason: "lease_backend_error "@ + e,
        ..rt
    }
}

/// No lease for this node: sealing off, lease fields untouched.
pub open spec fn blocked_rt(rt: LeaseRuntimeView, state: LeaseState, reason: Seq<char>) -> LeaseRuntimeView {
    LeaseRuntimeView { allow_seal: false, state, last_reason: reason, ..rt }
}

/// Lease held by this node: the record's fields are adopted and sealing is on.
pub open spec fn granted_rt(rt: LeaseRuntimeView, rec: LeaseRecView, reason: Seq<char>) -> LeaseRuntimeView {
    LeaseRuntimeView {
        owner_id: rec.owner_id,
        term: rec.term,
        expires_at_ms: rec.expiry,
        last_tip: rec.last_tip,
        fence: rec.fence,
        allow_seal: true,
        state: LeaseState::ActiveSealing,
        last_reason: reason,
    }
}

/// A step without the lease is a loss when the previous step allowed sealing.
pub open spec fn miss_event(prev_allow: bool) -> LeaseEvent {
    if prev_allow {
        LeaseEvent::Loss
    } else {
        LeaseEvent::Reject
    }
}

/// Decision on the standby path, for a lease record held by another owner.
pub open spec fn standby_decide(
    rt: LeaseRuntimeView,
    now_ms: u64,
    tip_h: u64,
    cfg: LeaseCfg,
    rec: LeaseRecView,
    take: Result<TakeRes, String>,
) -> (LeaseRuntimeView, Option<LeaseEvent>) {
    let miss = Some(miss_event(rt.allow_seal));
    let take_at = sat_add(rec.expiry, cfg.takeover_ms);
    if now_ms < rec.expiry {
        (blocked_rt(rt, LeaseState::StandbySyncing, held_reason(rec)), miss)
    } else if now_ms < take_at {
        (blocked_rt(rt, LeaseState::SuspectActiveLost, wait_reason(rec, take_at)), miss)
    } else if sat_add(tip_h, cfg.max_tip_lag) < rec.last_tip {
        (blocked_rt(rt, LeaseState::StandbySyncing, stale_reason(tip_h, rec)), miss)
    } else {
        match take {
            Err(e) => (fenced_rt(rt, e@), Some(LeaseEvent::Reject)),
            Ok(TakeRes::Taken(next)) => (
                granted_rt(rt, next@, "lease_takeover_committed"@),
                Some(LeaseEvent::Takeover),
            ),
            Ok(TakeRes::CasMiss(cur)) => (
                blocked_rt(
                    rt,
                    LeaseState::StandbySyncing,
                    "lease_takeover_cas_miss "@ + loss_label_spec(cur@),
                ),
                miss,
            ),
            Ok(TakeRes::Missing) => (
                blocked_rt(rt, LeaseState::StandbySyncing, "lease_takeover_missing"@),
                miss,
            ),
        }
    }
}

/// Full decision of one lease step from the backend's answers: `acq` to the
/// acquire request, `renew` to the renew request (asked only when this node
/// owns the held lease), `take` to the takeover request (asked only when the
/// held lease is past its expiry plus the takeover wait and the local tip is
/// recent enough).
pub open spec fn lease_decide(
    rt: LeaseRuntimeView,
    node: Seq<char>,
    now_ms: u64,
    tip_h: u64,
    cfg: LeaseCfg,
    acq: Result<AcquireRes, String>,
    renew: Result<RenewRes, String>,
    take: Result<TakeRes, String>,
) -> (LeaseRuntimeView, Option<LeaseEvent>) {
    match acq {
        Err(e) => (fenced_rt(rt, e@), Some(LeaseEvent::Reject)),
        Ok(AcquireRes::Acquired(next)) => (
            granted_rt(rt, next@, "lease_acquired_boot"@),
            Some(LeaseEvent::Acquire),
        ),
        Ok(AcquireRes::Held(rec)) => if rec@.owner_id == node {
            match renew {
                Err(e) => (fenced_rt(rt, e@), Some(LeaseEvent::Reject)),
                Ok(RenewRes::Renewed(next)) => (
                    granted_rt(rt, next@, "lease_renewed"@),
                    Some(
                        if rt.allow_seal {
                            LeaseEvent::Renew
                        } else {
                            LeaseEvent::Acquire
                        },
                    ),
                ),
                Ok(RenewRes::Lost(obs)) => (
                    blocked_rt(
                        rt,
                        LeaseState::StandbySyncing,
                        "lease_renew_cas_miss "@ + match obs {
                            Some(o) => loss_label_spec(o@),
                            None => "lease_renew_missing"@,
                        },
                    ),
                    Some(miss_event(rt.allow_seal)),
                ),
            }
        } else {
            standby_decide(rt, now_ms, tip_h, cfg, rec@, take)
        },
    }
}

/// The backend answers are consistent with the requests a step sends: the
/// acquire answer always, the renew and takeover answers where the step
/// sends those requests.
pub open spec fn answers_fit(
    vh: Seq<char>,
    node: Seq<char>,
    now_ms: u64,
    tip_h: u64,
    cfg: LeaseCfg,
    acq: Result<AcquireRes, String>,
    renew: Result<RenewRes, String>,
    take: Result<TakeRes, String>,
) -> bool {
    let rec = held_rec(acq);
    &&& acquire_fact(vh, node, now_ms, tip_h, cfg.ttl_ms, acq)
    &&& renew_needed(acq, node) ==> renew_fact(
        vh,
        node,
        rec.term,
        rec.fence,
        now_ms,
        tip_h,
        cfg.ttl_ms,
        renew,
    )
    &&& take_needed(acq, node, now_ms, tip_h, cfg) ==> take_fact(
        vh,
        node,
        rec.term,
        rec.fence,
        rec.expiry,
        now_ms,
        tip_h,
        cfg.ttl_ms,
        take,
    )
}

fn apply_rt(rt: &mut LeaseRuntime, rec: &LeaseRec, reason: &str)
    ensures
        final(rt)@ == granted_rt(old(rt)@, rec@, reason@),
{
    rt.owner_id = rec.owner_id.clone();
    rt.term = rec.term;
    rt.expires_at_ms = rec.expiry;
    rt.last_tip = rec.last_tip;
    rt.fence = rec.fence;
    rt.allow_seal = true;
    rt.state = LeaseState::ActiveSealing;
    rt.last_reason = String::from_str(reason);
}

fn set_blocked(rt: &mut LeaseRuntime, state: LeaseState, reason: String)
    ensures
        final(rt)@ == blocked_rt(old(rt)@, state, reason@),
{
    rt.allow_seal = false;
    rt.state = state;
    rt.last_reason = reason;
}

fn set_fenced(rt: &mut LeaseRuntime, e: &String)
    ensures
        final(rt)@ == fenced_rt(old(rt)@, e@),
{
    let mut reason = String::from_str("lease_backend_error ");
    reason.append(e.as_str());
    set_blocked(rt, LeaseState::FencedStandby, reason);
}

fn miss_event_exec(prev_allow: bool) -> (r: LeaseEvent)
    ensures
        r == miss_event(prev_allow),
{
    if prev_allow {
        LeaseEvent::Loss
    } else {
        LeaseEvent::Reject
    }
}

/// Whether the acquire answer calls for renewing this node's own lease.
pub open spec fn renew_needed(acq: Result<AcquireRes, String>, node: Seq<char>) -> bool {
    acq matches Ok(AcquireRes::Held(rec)) && rec@.owner_id == node
}

/// Whether another owner's lease `rec` may be taken over: past its expiry and
/// the takeover wait, with the local tip recent enough.
pub open spec fn take_due(now_ms: u64, tip_h: u64, cfg: LeaseCfg, rec: LeaseRecView) -> bool {
    &&& now_ms >= rec.expiry
    &&& now_ms >= sat_add(rec.expiry, cfg.takeover_ms)
    &&& sat_add(tip_h, cfg.max_tip_lag) >= rec.last_tip
}

/// Whether the acquire answer calls for a takeover.
pub open spec fn take_needed(
    acq: Result<AcquireRes, String>,
    node: Seq<char>,
    now_ms: u64,
    tip_h: u64,
    cfg: LeaseCfg,
) -> bool {
    acq matches Ok(AcquireRes::Held(rec)) && rec@.owner_id != node && take_due(now_ms, tip_h, cfg, rec@)
}

/// The record a `Held` answer reports.
pub open spec fn held_rec(acq: Result<AcquireRes, String>) -> LeaseRecView {
    match acq {
        Ok(AcquireRes::Held(rec)) => rec@,
        _ => arbitrary(),
    }
}

pub open spec fn acq_answer(c: LeaseCall) -> Result<AcquireRes, String> {
    match c {
        LeaseCall::Acquire { answer, .. } => answer,
        _ => arbitrary(),
    }
}

pub open spec fn renew_answer(c: LeaseCall) -> Result<RenewRes, String> {
    match c {
        LeaseCall::Renew { answer, .. } => answer,
        _ => arbitrary(),
    }
}

pub open spec fn take_answer(c: LeaseCall) -> Result<TakeRes, String> {
    match c {
        LeaseCall::Take { answer, .. } => answer,
        _ => arbitrary(),
    }
}

/// The requests one lease step sends, in order: an acquire for `node`; then
/// a renew guarded by the held lease's term and fence where this node owns
/// it, or a takeover guarded by its term, fence and expiry where another
/// owner's lease may be taken over; nothing else.
pub open spec fn lease_step_calls(
    vh: Seq<char>,
    node: Seq<char>,
    now_ms: u64,
    tip_h: u64,
    cfg: LeaseCfg,
    calls: Seq<LeaseCall>,
) -> bool {
    let acq = acq_answer(calls[0]);
    let rec = held_rec(acq);
    &&& calls.len() >= 1
    &&& calls[0] == (LeaseCall::Acquire {
        vh,
        owner: node,
        now_ms,
        tip_h,
        ttl_ms: cfg.ttl_ms,
        answer: acq,
    })
    &&& if renew_needed(acq, node) {
        calls.len() == 2 && calls[1] == (LeaseCall::Renew {
            vh,
            owner: node,
            exp_term: rec.term,
            exp_fence: rec.fence,
            now_ms,
            tip_h,
            ttl_ms: cfg.ttl_ms,
            answer: renew_answer(calls[1]),
        })
    } else if take_needed(acq, node, now_ms, tip_h, cfg) {
        calls.len() == 2 && calls[1] == (LeaseCall::Take {
            vh,
            owner: node,
            exp_term: rec.term,
            exp_fence: rec.fence,
            exp_expiry: rec.expiry,
            now_ms,
            tip_h,
            ttl_ms: cfg.ttl_ms,
            answer: take_answer(calls[1]),
        })
    } else {
        calls.len() == 1
    }
}

/// The answer to a step's second request, where it sent one.
pub enum LeaseFollow {
    Nothing,
    Renewed(Result<RenewRes, String>),
    Taken(Result<TakeRes, String>),
}

pub open spec fn follow_renew(f: LeaseFollow) -> Result<RenewRes, String> {
    match f {
        LeaseFollow::Renewed(x) => x,
        _ => arbitrary(),
    }
}

pub open spec fn follow_take(f: LeaseFollow) -> Result<TakeRes, String> {
    match f {
        LeaseFollow::Taken(x) => x,
        _ => arbitrary(),
    }
}

/// The lease step decided from the answers the store gave: `acq` to the
/// acquire request and `follow` to the renew or takeover request that
/// answer called for (see [`lease_decide`]).
pub fn lease_step_from(
    rt: &mut LeaseRuntime,
    node_id: &str,
    now_ms: u64,
    tip_h: u64,
    cfg: LeaseCfg,
    acq: Result<AcquireRes, String>,
    follow: LeaseFollow,
) -> (r: Option<LeaseEvent>)
    requires
        renew_needed(acq, node_id@) <==> follow is Renewed,
        take_needed(acq, node_id@, now_ms, tip_h, cfg) <==> follow is Taken,
    ensures
        (final(rt)@, r) == lease_decide(
            old(rt)@,
            node_id@,
            now_ms,
            tip_h,
            cfg,
            acq,
            follow_renew(follow),
            follow_take(follow),
        ),
{
    let prev_allow = rt.allow_seal;
    match acq {
        Err(e) => {
            set_fenced(rt, &e);
            Some(LeaseEvent::Reject)
        },
        Ok(AcquireRes::Acquired(next)) => {
            apply_rt(rt, &next, "lease_acquired_boot");
            Some(LeaseEvent::Acquire)
        },
        Ok(AcquireRes::Held(rec)) => {
            if str_eq(rec.owner_id.as_str(), node_id) {
                let rn = match follow {
                    LeaseFollow::Renewed(x) => x,
                    _ => {
                        assert(false);
                        return None;
                    },
                };
                match rn {
                    Err(e) => {
                        set_fenced(rt, &e);
                        Some(LeaseEvent::Reject)
                    },
                    Ok(RenewRes::Renewed(next)) => {
                        apply_rt(rt, &next, "lease_renewed");
                        Some(
                            if prev_allow {
                                LeaseEvent::Renew
                            } else {
                                LeaseEvent::Acquire
                            },
                        )
                    },
                    Ok(RenewRes::Lost(obs)) => {
                        let mut reason = String::from_str("lease_renew_cas_miss ");
                        match obs {
                            Some(o) => {
                                let label = loss_label(&o);
                                reason.append(label.as_str());
                            },
                            None => {
                                reason.append("lease_renew_missing");
                            },
                        }
                        set_blocked(rt, LeaseState::StandbySyncing, reason);
                        Some(miss_event_exec(prev_allow))
                    },
                }
            } else {
                if now_ms < rec.expiry {
                    let mut reason = String::from_str("lease_held_by_peer owner=");
                    reason.append(rec.owner_id.as_str());
                    reason.append(" term=");
                    push_dec(&mut reason, rec.term);
                    reason.append(" expires_at_ms=");
                    push_dec(&mut reason, rec.expiry);
                    set_blocked(rt, LeaseState::StandbySyncing, reason);
                    return Some(miss_event_exec(prev_allow));
                }
                let take_at = rec.expiry.saturating_add(cfg.takeover_ms);
                if now_ms < take_at {
                    let mut reason = String::from_str("takeover_wait owner=");
                    reason.append(rec.owner_id.as_str());
                    reason.append(" takeover_at_ms=");
                    push_dec(&mut reason, take_at);
                    set_blocked(rt, LeaseState::SuspectActiveLost, reason);
                    return Some(miss_event_exec(prev_allow));
                }
                if tip_h.saturating_add(cfg.max_tip_lag) < rec.last_tip {
                    let mut reason = String::from_str("takeover_reject_stale_tip local_tip=");
                    push_dec(&mut reason, tip_h);
                    reason.append(" required_tip=");
                    push_dec(&mut reason, rec.last_tip);
                    set_blocked(rt, LeaseState::StandbySyncing, reason);
                    return Some(miss_event_exec(prev_allow));
                }
                let take = match follow {
                    LeaseFollow::Taken(x) => x,
                    _ => {
                        assert(false);
                        return None;
                    },
                };
                match take {
                    Err(e) => {
                        set_fenced(rt, &e);
                        Some(LeaseEvent::Reject)
                    },
                    Ok(TakeRes::Taken(next)) => {
                        apply_rt(rt, &next, "lease_takeover_committed");
                        Some(LeaseEvent::Takeover)
                    },
                    Ok(TakeRes::CasMiss(cur)) => {
                        let mut reason = String::from_str("lease_takeover_cas_miss ");
                        let label = loss_label(&cur);
                        reason.append(label.as_str());
                        set_blocked(rt, LeaseState::StandbySyncing, reason);
                        Some(miss_event_exec(prev_allow))
                    },
                    Ok(TakeRes::Missing) => {
                        set_blocked(
                            rt,
                            LeaseState::StandbySyncing,
                            String::from_str("lease_takeover_missing"),
                        );
                        Some(miss_event_exec(prev_allow))
                    },
                }
            }
        },
    }
}

/// The requests a store answered after `before`, given its history now.
pub open spec fn sent_calls(before: Seq<LeaseCall>, after: Seq<LeaseCall>) -> Seq<LeaseCall> {
    after.skip(before.len() as int)
}

/// The answers a step got meet the store's documented facts.
pub open spec fn sent_answers_fit(
    vh: Seq<char>,
    node: Seq<char>,
    now_ms: u64,
    tip_h: u64,
    cfg: LeaseCfg,
    sent: Seq<LeaseCall>,
) -> bool {
    answers_fit(
        vh,
        node,
        now_ms,
        tip_h,
        cfg,
        acq_answer(sent[0]),
        renew_answer(sent[1]),
        take_answer(sent[1]),
    )
}

/// The step [`lease_decide`] makes of the answers a step got.
pub open spec fn sent_decide(
    before: LeaseRuntimeView,
    node: Seq<char>,
    now_ms: u64,
    tip_h: u64,
    cfg: LeaseCfg,
    sent: Seq<LeaseCall>,
) -> (LeaseRuntimeView, Option<LeaseEvent>) {
    lease_decide(
        before,
        node,
        now_ms,
        tip_h,
        cfg,
        acq_answer(sent[0]),
        renew_answer(sent[1]),
        take_answer(sent[1]),
    )
}

/// One lease step for `node_id` on validator identity `vh`: the requests
/// [`lease_step_calls`] lists go to the store, in order and nothing else,
/// and the step is [`lease_decide`] of the answers the store gave. Sealing
/// is allowed exactly when this step ends holding the lease.
pub fn step_lease<B: LeaseBackend>(
    vh: &str,
    node_id: &str,
    now_ms: u64,
    tip_h: u64,
    cfg: LeaseCfg,
    rt: &mut LeaseRuntime,
    backend: &mut B,
) -> (r: LeaseStep)
    ensures
        r.allow_seal == final(rt).allow_seal,
        old(backend).calls().len() < final(backend).calls().len(),
        final(backend).calls().take(old(backend).calls().len() as int) == old(backend).calls(),
        old(backend).consistent() ==> final(backend).consistent(),
        lease_step_calls(
            vh@,
            node_id@,
            now_ms,
            tip_h,
            cfg,
            sent_calls(old(backend).calls(), final(backend).calls()),
        ),
        sent_answers_fit(
            vh@,
            node_id@,
            now_ms,
            tip_h,
            cfg,
            sent_calls(old(backend).calls(), final(backend).calls()),
        ),
        (final(rt)@, r.event) == sent_decide(
            old(rt)@,
            node_id@,
            now_ms,
            tip_h,
            cfg,
            sent_calls(old(backend).calls(), final(backend).calls()),
        ),
{
    let ghost calls0 = backend.calls();
    let acq = backend.acquire(LeaseGrant { vh, owner: node_id, now_ms, tip_h, ttl_ms: cfg.ttl_ms });
    let ghost calls1 = backend.calls();
    let follow = match &acq {
        Ok(AcquireRes::Held(rec)) => {
            if str_eq(rec.owner_id.as_str(), node_id) {
                LeaseFollow::Renewed(
                    backend.renew(
                        LeaseKeep {
                            vh,
                            owner: node_id,
                            exp_term: rec.term,
                            exp_fence: rec.fence,
                            now_ms,
                            tip_h,
                            ttl_ms: cfg.ttl_ms,
                        },
                    ),
                )
            } else if now_ms >= rec.expiry && now_ms >= rec.expiry.saturating_add(cfg.takeover_ms)
                && tip_h.saturating_add(cfg.max_tip_lag) >= rec.last_tip {
                LeaseFollow::Taken(
                    backend.takeover(
                        LeaseTake {
                            vh,
                            owner: node_id,
                            exp_term: rec.term,
                            exp_fence: rec.fence,
                            exp_expiry: rec.expiry,
                            now_ms,
                            tip_h,
                            ttl_ms: cfg.ttl_ms,
                        },
                    ),
                )
            } else {
                LeaseFollow::Nothing
            }
        },
        _ => LeaseFollow::Nothing,
    };
    let ghost g_acq = acq;
    let ghost g_follow = follow;
    let event = lease_step_from(rt, node_id, now_ms, tip_h, cfg, acq, follow);
    proof {
        let n = calls0.len();
        let sent = backend.calls().skip(n as int);
        assert(calls1 == calls0.push(sent[0]));
        assert(sent[0] == calls1[n as int]);
        assert(acq_answer(sent[0]) == g_acq);
        assert(backend.calls().take(n as int) =~= calls0);
        match g_follow {
            LeaseFollow::Renewed(x) => {
                assert(sent.len() == 2);
                assert(renew_answer(sent[1]) == x);
            },
            LeaseFollow::Taken(x) => {
                assert(sent.len() == 2);
                assert(take_answer(sent[1]) == x);
            },
            LeaseFollow::Nothing => {
                assert(sent.len() == 1);
            },
        }
    }
    LeaseStep { allow_seal: rt.allow_seal, event }
}

/// Reason prefix of a step that the lease store failed to answer.
pub open spec fn is_backend_error(reason: Seq<char>) -> bool {
    "lease_backend_error "@.len() <= reason.len() && reason.take("lease_backend_error "@.len() as int)
        == "lease_backend_error "@
}

/// The seal gate of the lease: only a single-sealer deployment asks the
/// lease store; any other lets sealing through untouched and gives `None`.
/// When it asks, the step is [`step_lease`]'s, each event is counted in
/// `stats`, and `last_err` keeps the last store failure: it is set when the
/// step failed on the store and cleared when the step allows sealing.
pub fn run_lease_gate<B: LeaseBackend>(
    profile: DeploymentProfile,
    vh: &str,
    node_id: &str,
    now_ms: u64,
    tip_h: u64,
    cfg: LeaseCfg,
    rt: &mut LeaseRuntime,
    backend: &mut B,
    last_err: &mut Option<String>,
    stats: &mut LeaseStats,
) -> (r: Option<LeaseStep>)
    ensures
        profile != DeploymentProfile::SingleSealer ==> {
            &&& r is None
            &&& *final(rt) == *old(rt)
            &&& final(backend).calls() == old(backend).calls()
            &&& *final(last_err) == *old(last_err)
            &&& final(stats)@ == old(stats)@
        },
        profile == DeploymentProfile::SingleSealer ==> {
            &&& r is Some
            &&& r->0.allow_seal == final(rt).allow_seal
            &&& old(backend).calls().len() < final(backend).calls().len()
            &&& final(backend).calls().take(old(backend).calls().len() as int)
                == old(backend).calls()
            &&& old(backend).consistent() ==> final(backend).consistent()
            &&& lease_step_calls(
                vh@,
                node_id@,
                now_ms,
                tip_h,
                cfg,
                sent_calls(old(backend).calls(), final(backend).calls()),
            )
            &&& sent_answers_fit(
                vh@,
                node_id@,
                now_ms,
                tip_h,
                cfg,
                sent_calls(old(backend).calls(), final(backend).calls()),
            )
            &&& (final(rt)@, r->0.event) == sent_decide(
                old(rt)@,
                node_id@,
                now_ms,
                tip_h,
                cfg,
                sent_calls(old(backend).calls(), final(backend).calls()),
            )
            &&& final(stats)@ == match r->0.event {
                Some(ev) => counted(old(stats)@, ev),
                None => old(stats)@,
            }
            &&& is_backend_error(final(rt)@.last_reason) ==> (*final(last_err) matches Some(e)
                && e@ == final(rt)@.last_reason)
            &&& !is_backend_error(final(rt)@.last_reason) && r->0.allow_seal
                ==> *final(last_err) is None
            &&& !is_backend_error(final(rt)@.last_reason) && !r->0.allow_seal ==> *final(last_err)
                == *old(last_err)
        },
{
    proof {
        reveal_strlit("lease_backend_error ");
    }
    if profile != DeploymentProfile::SingleSealer {
        return None;
    }
    let step = step_lease(vh, node_id, now_ms, tip_h, cfg, rt, backend);
    if starts_with(rt.last_reason.as_str(), "lease_backend_error ") {
        *last_err = Some(String::from_str(rt.last_reason.as_str()));
    } else if step.allow_seal {
        *last_err = None;
    }
    match step.event {
        Some(ev) => stats.on_event(ev),
        None => {},
    }
    Some(step)
}

// ---------------------------------------------------------------------------
// Laws of the lease step
// ---------------------------------------------------------------------------

/// Sealing is allowed only when the step ends holding a lease owned by this
/// node, valid from now for the configured TTL and recorded at the local tip.
pub proof fn lemma_seal_only_with_own_fresh_lease(
    before: LeaseRuntimeView,
    vh: Seq<char>,
    node: Seq<char>,
    now_ms: u64,
    tip_h: u64,
    cfg: LeaseCfg,
    acq: Result<AcquireRes, String>,
    renew: Result<RenewRes, String>,
    take: Result<TakeRes, String>,
)
    requires
        answers_fit(vh, node, now_ms, tip_h, cfg, acq, renew, take),
    ensures
        ({
            let (after, ev) = lease_decide(before, node, now_ms, tip_h, cfg, acq, renew, take);
            after.allow_seal ==> {
                &&& after.owner_id == node
                &&& after.state == LeaseState::ActiveSealing
                &&& after.expires_at_ms == sat_add(now_ms, cfg.ttl_ms)
                &&& after.last_tip == tip_h
                &&& (ev == Some(LeaseEvent::Acquire) || ev == Some(LeaseEvent::Renew) || ev
                    == Some(LeaseEvent::Takeover))
            }
        }),
{
}

/// A step that does not grant the lease turns sealing off, leaves the lease
/// fields as they were, and reports a loss exactly when the previous step
/// allowed sealing (or a reject otherwise, or on a backend failure).
pub proof fn lemma_refusal_keeps_lease_fields(
    before: LeaseRuntimeView,
    vh: Seq<char>,
    node: Seq<char>,
    now_ms: u64,
    tip_h: u64,
    cfg: LeaseCfg,
    acq: Result<AcquireRes, String>,
    renew: Result<RenewRes, String>,
    take: Result<TakeRes, String>,
)
    requires
        answers_fit(vh, node, now_ms, tip_h, cfg, acq, renew, take),
    ensures
        ({
            let (after, ev) = lease_decide(before, node, now_ms, tip_h, cfg, acq, renew, take);
            !after.allow_seal ==> {
                &&& after.state != LeaseState::ActiveSealing
                &&& after.owner_id == before.owner_id
                &&& after.term == before.term
                &&& after.expires_at_ms == before.expires_at_ms
                &&& after.last_tip == before.last_tip
                &&& after.fence == before.fence
                &&& (ev == Some(LeaseEvent::Loss) || ev == Some(LeaseEvent::Reject))
                &&& (ev == Some(LeaseEvent::Loss) ==> before.allow_seal)
                &&& (after.state != LeaseState::FencedStandby ==> ev == Some(
                    miss_event(before.allow_seal),
                ))
            }
        }),
{
}

/// While another owner's lease is unexpired or inside its takeover window,
/// this node cannot seal, whatever a takeover request would have answered.
pub proof fn lemma_peer_lease_blocks_seal(
    before: LeaseRuntimeView,
    node: Seq<char>,
    now_ms: u64,
    tip_h: u64,
    cfg: LeaseCfg,
    held: LeaseRec,
    renew: Result<RenewRes, String>,
    take1: Result<TakeRes, String>,
    take2: Result<TakeRes, String>,
)
    requires
        held@.owner_id != node,
        now_ms < sat_add(held@.expiry, cfg.takeover_ms),
    ensures
        !lease_decide(
            before,
            node,
            now_ms,
            tip_h,
            cfg,
            Ok(AcquireRes::Held(held)),
            renew,
            take1,
        ).0.allow_seal,
        lease_decide(before, node, now_ms, tip_h, cfg, Ok(AcquireRes::Held(held)), renew, take1)
            == lease_decide(before, node, now_ms, tip_h, cfg, Ok(AcquireRes::Held(held)), renew, take2),
{
}

/// A committed takeover moves term and fence one past the lease it replaced,
/// so requests guarded by the old fence no longer match.
pub proof fn lemma_takeover_advances_fence(
    before: LeaseRuntimeView,
    vh: Seq<char>,
    node: Seq<char>,
    now_ms: u64,
    tip_h: u64,
    cfg: LeaseCfg,
    held: LeaseRec,
    renew: Result<RenewRes, String>,
    take: Result<TakeRes, String>,
)
    requires
        answers_fit(vh, node, now_ms, tip_h, cfg, Ok(AcquireRes::Held(held)), renew, take),
        held@.fence < u64::MAX,
        held@.term < u64::MAX,
    ensures
        ({
            let (after, ev) = lease_decide(
                before,
                node,
                now_ms,
                tip_h,
                cfg,
                Ok(AcquireRes::Held(held)),
                renew,
                take,
            );
            ev == Some(LeaseEvent::Takeover) ==> after.fence == held@.fence + 1 && after.term
                == held@.term + 1 && after.fence > held@.fence
        }),
{
}

} // verus!
