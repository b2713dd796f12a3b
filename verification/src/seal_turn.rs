//! The seal loop as a state machine. The loop keeps a [`SealLoop`] between
//! passes; each pass hands it what the node observed and gets back what to
//! do next: exit, sleep, try to skip a missed height, or run the lease gate;
//! the gates' outcomes and the seal's come back the same way. The outside
//! work (reading the chain, the gates, sealing, sleeping) is the caller's.

use crate::lifecycle::{
    align_next_seal_ms, align_next_spec, cluster_pending_summary_hit,
    cluster_seal_preflight, empty_window, eval_supp_spec, gate_recheck_needed, poll_sleep_ms,
    sat_sub, should_attempt_seal, should_fire_seal_ahead, AttSyncRes, ClusterGateDedup, GateBlock,
    SealAheadWindow, SealPreflight, SealSuppressWindow, SuppressReason, SEAL_POLL_INTERVAL_MS,
    SEAL_SUPPRESS_WINDOW_SEC, SEAL_WAIT_PEER_MS,
};
use crate::lease_backend::sat_add;
use crate::seal_loop::{
    attesters_ready_edge, drift_step, drift_window, drift_window_closes, prep_wait, stop_due,
    turn_pass, DriftStep, MissWatch, TurnWatch,
};
use vstd::prelude::*;

verus! {

/// Fixed settings of a node's seal loop.
#[derive(Clone, Copy, Debug)]
pub struct SealLoopCfg {
    /// Nominal seal interval.
    pub nominal_ms: u64,
    /// Cluster mode with the proposer role.
    pub is_proposer: bool,
    /// Cluster mode with the attester role (never seals locally).
    pub is_attester: bool,
    /// Lead before the deadline at which a proposer nudges its attesters
    /// (0: off).
    pub seal_ahead_ms: u64,
    /// Attester acknowledgements a seal needs.
    pub quorum_k: u8,
    /// Follower mode: never seal locally.
    pub debug_disable: bool,
    /// Height at which the node shuts down (debug).
    pub stop_h: Option<u64>,
}

/// Who proposes the next height, as far as the node could tell.
#[derive(Clone, Copy, Debug, PartialEq, Eq, Structural)]
pub enum ProducerObs {
    /// This node.
    Local,
    /// Another cluster member.
    Other,
    /// The pick failed; `fatal` where no validator is active at all.
    Unresolved { fatal: bool },
}

/// What the node observed at the top of a pass.
#[derive(Clone, Copy, Debug)]
pub struct PassObs {
    pub now_ms: u64,
    pub shutdown: bool,
    /// A proposer whose seal is driven by the manual RPC.
    pub manual_paused: bool,
    /// The init state lets the chain progress.
    pub allows_progress: bool,
    pub tip_h: u64,
    /// Sync-ready attesters.
    pub att: AttSyncRes,
    /// Producer of the height after the tip.
    pub producer: ProducerObs,
}

/// What the pass asks of the caller next.
#[derive(Clone, Copy, Debug, PartialEq, Eq, Structural)]
pub enum PassNext {
    /// Leave the loop (shutdown requested).
    Exit,
    /// The producer pick failed for want of any active validator: stop
    /// the process.
    ExitFatalPick,
    /// Sleep `ms` (a proposer waiting for its deadline may be woken early).
    Sleep { ms: u64, wakeable: bool },
    /// Try to skip the missed height `lead_h` to failover, then sleep one
    /// poll interval.
    TrySkip { lead_h: u64 },
    /// Run the lease gate for `target_h`.
    RunLeaseGate { target_h: u64 },
}

/// What one pass decided, with the events to report.
#[derive(Clone, Copy, Debug)]
pub struct PassPlan {
    /// The ahead nudge fired, this long before the deadline.
    pub nudge_lead_ms: Option<u64>,
    /// The seal-turn watchdog alerts.
    pub turn_alert: bool,
    /// The suppression window closed: its counters, to report.
    pub window_summary: Option<(SealSuppressWindow, SealAheadWindow)>,
    /// A preparation summary is due: seconds waited so far.
    pub prep_summary_sec: Option<u64>,
    /// First wait for attester sync at this gate height.
    pub wait_sync_h: Option<u64>,
    /// Attesters just became ready.
    pub attest_ready: bool,
    /// The wait for another primary proposer starts.
    pub primary_wait: bool,
    /// A new seal slot opened.
    pub slot_opened: bool,
    /// The debug stop height is reached.
    pub stop_request: bool,
    pub next: PassNext,
}

/// What follows a gate's outcome.
#[derive(Clone, Copy, Debug, PartialEq, Eq, Structural)]
pub enum GateNext {
    RunClusterGate,
    RecheckClusterGate,
    /// Seal now; on success the next deadline is `scheduled_next`.
    Seal { scheduled_next: u64 },
    /// Blocked: sleep one poll interval (`stop_request`: the debug stop
    /// height is reached).
    Blocked { stop_request: bool },
}

/// What follows a successful seal of height `h`.
#[derive(Clone, Copy, Debug)]
pub struct SealedPlan {
    /// Blocked gate passes since the last summary, where the summary is due.
    pub pending_summary: Option<u64>,
    /// The cadence drift window closed: its blocks, wall time and outcome.
    pub drift: Option<(u64, u64, DriftStep)>,
    pub stop_request: bool,
}

/// The seal loop's state between passes.
#[derive(Clone, Copy, Debug)]
pub struct SealLoop {
    pub cfg: SealLoopCfg,
    pub next_seal_time_ms: u64,
    pub turn: TurnWatch,
    pub miss: MissWatch,
    pub supp: SealSuppressWindow,
    pub ahead: SealAheadWindow,
    pub gate_dedup: ClusterGateDedup,
    pub attester_was_ready: bool,
    pub ahead_fired_for: Option<u64>,
    /// Start of the current preparation wait (0: none).
    pub prep_wait_since_ms: u64,
    /// When the last preparation summary was logged.
    pub prep_summary_at_ms: Option<u64>,
    /// Start of the current suppression window.
    pub window_at_ms: u64,
    /// Blocked gate passes since the last pending summary.
    pub pending_ticks: u64,
    /// Effective cadence (reported; the grid follows the nominal interval).
    pub effective_ms: u64,
    pub drift_window_h: u64,
    pub drift_window_at_ms: u64,
}

/// Whether a pass gets as far as the gates: no shutdown or manual pause,
/// the deadline reached, the chain free to progress, a node that seals
/// locally, and for a proposer enough sync-ready attesters and itself the
/// producer of the next height.
pub open spec fn pass_reaches_gates(cfg: SealLoopCfg, deadline_ms: u64, obs: PassObs) -> bool {
    &&& !obs.shutdown
    &&& !obs.manual_paused
    &&& obs.now_ms >= deadline_ms
    &&& obs.allows_progress
    &&& !cfg.debug_disable
    &&& !cfg.is_attester
    &&& cfg.is_proposer ==> obs.att.sync_n >= cfg.quorum_k && obs.producer == ProducerObs::Local
}

/// Whether a proposer's suppression window (100 s) has closed at `now_ms`.
pub open spec fn window_closes(cfg: SealLoopCfg, window_at_ms: u64, now_ms: u64) -> bool {
    cfg.is_proposer && sat_sub(now_ms, window_at_ms) >= SEAL_SUPPRESS_WINDOW_SEC * 1000
}

/// Whether a pass finds the deadline reached (no shutdown, no manual pause).
pub open spec fn pass_at_deadline(deadline_ms: u64, obs: PassObs) -> bool {
    !obs.shutdown && !obs.manual_paused && obs.now_ms >= deadline_ms
}

/// Whether a proposer's pass waits for sync-ready attesters.
pub open spec fn pass_waits_attesters(cfg: SealLoopCfg, deadline_ms: u64, obs: PassObs) -> bool {
    &&& pass_at_deadline(deadline_ms, obs)
    &&& obs.allows_progress
    &&& !cfg.debug_disable
    &&& !cfg.is_attester
    &&& cfg.is_proposer
    &&& obs.att.sync_n < cfg.quorum_k
}

/// Gate height a proposer waits on for attester sync.
pub open spec fn wait_gate_h(obs: PassObs) -> u64 {
    if sat_add(obs.att.local_h, 1) >= 1 {
        sat_add(obs.att.local_h, 1)
    } else {
        1
    }
}

/// Whether the preparation summary is due at `now_ms`.
pub open spec fn prep_due(at_ms: Option<u64>, now_ms: u64) -> bool {
    match at_ms {
        None => true,
        Some(t) => sat_sub(now_ms, t) >= crate::init_state::PREP_SUMMARY_IV_SEC * 1000,
    }
}

/// Whether a pass reaches the proposer's producer check.
pub open spec fn pass_reaches_producer(cfg: SealLoopCfg, deadline_ms: u64, obs: PassObs) -> bool {
    &&& !obs.shutdown
    &&& !obs.manual_paused
    &&& obs.now_ms >= deadline_ms
    &&& obs.allows_progress
    &&& !cfg.debug_disable
    &&& !cfg.is_attester
    &&& cfg.is_proposer
    &&& obs.att.sync_n >= cfg.quorum_k
}

/// Whether the ahead nudge fires in a pass.
pub open spec fn pass_nudges(cfg: SealLoopCfg, deadline_ms: u64, fired_for: Option<u64>, obs: PassObs) -> bool {
    &&& !obs.shutdown
    &&& !obs.manual_paused
    &&& cfg.is_proposer
    &&& cfg.seal_ahead_ms != 0
    &&& fired_for != Some(deadline_ms)
    &&& obs.now_ms >= sat_sub(deadline_ms, cfg.seal_ahead_ms)
    &&& obs.now_ms < deadline_ms
    &&& obs.att.sync_n >= cfg.quorum_k
}

/// The ahead nudge fires at most once per deadline: after it fired for a
/// deadline, no later pass over that deadline fires it again.
pub proof fn lemma_one_nudge_per_deadline(
    cfg: SealLoopCfg,
    deadline_ms: u64,
    fired_for: Option<u64>,
    first: PassObs,
    later: PassObs,
)
    requires
        pass_nudges(cfg, deadline_ms, fired_for, first),
    ensures
        !pass_nudges(cfg, deadline_ms, Some(deadline_ms), later),
{
}

/// A proposer reaches the gates only with a quorum of sync-ready attesters
/// and as the producer of the next height; attesters and followers never do.
pub proof fn lemma_gates_need_quorum_and_turn(cfg: SealLoopCfg, deadline_ms: u64, obs: PassObs)
    requires
        pass_reaches_gates(cfg, deadline_ms, obs),
    ensures
        !cfg.is_attester && !cfg.debug_disable,
        obs.now_ms >= deadline_ms,
        cfg.is_proposer ==> obs.att.sync_n >= cfg.quorum_k && obs.producer == ProducerObs::Local,
{
}

impl SealLoop {
    /// A loop starting at `now_ms` with the chain at `tip_h`: effective
    /// cadence at nominal, the first deadline on the grid after `now_ms`.
    pub fn start(cfg: SealLoopCfg, now_ms: u64, tip_h: u64) -> (r: Self)
        ensures
            r.cfg == cfg,
            r.next_seal_time_ms == align_next_spec(now_ms, cfg.nominal_ms),
            r.turn == (TurnWatch { deadline_ms: None, microcycles: 0, alerted: false }),
            r.miss.height is None,
            r.supp == empty_window(),
            r.ahead == (SealAheadWindow { fired: 0, preflight_skip: 0, lead_ms_sum: 0 }),
            !r.attester_was_ready,
            r.ahead_fired_for is None,
            r.prep_wait_since_ms == 0,
            r.prep_summary_at_ms is None,
            r.window_at_ms == now_ms,
            r.pending_ticks == 0,
            r.effective_ms == cfg.nominal_ms,
            r.drift_window_h == tip_h,
            r.drift_window_at_ms == now_ms,
    {
        SealLoop {
            cfg,
            next_seal_time_ms: align_next_seal_ms(now_ms, cfg.nominal_ms),
            turn: TurnWatch::new(),
            miss: MissWatch::new(),
            supp: SealSuppressWindow::mk_new(),
            ahead: SealAheadWindow::mk_new(),
            gate_dedup: ClusterGateDedup::default(),
            attester_was_ready: false,
            ahead_fired_for: None,
            prep_wait_since_ms: 0,
            prep_summary_at_ms: None,
            window_at_ms: now_ms,
            pending_ticks: 0,
            effective_ms: cfg.nominal_ms,
            drift_window_h: tip_h,
            drift_window_at_ms: now_ms,
        }
    }

    /// Whether a preparation summary is due at `now_ms`; records it if so.
    fn take_prep_summary(&mut self, now_ms: u64) -> (due: bool)
        ensures
            due == match old(self).prep_summary_at_ms {
                None => true,
                Some(t) => sat_sub(now_ms, t) >= crate::init_state::PREP_SUMMARY_IV_SEC * 1000,
            },
            final(self).prep_summary_at_ms == if due {
                Some(now_ms)
            } else {
                old(self).prep_summary_at_ms
            },
            *final(self) == (SealLoop { prep_summary_at_ms: final(self).prep_summary_at_ms, ..*old(self) }),
    {
        let due = match self.prep_summary_at_ms {
            None => true,
            Some(t) => crate::init_state::prep_log_due(t, now_ms),
        };
        if due {
            self.prep_summary_at_ms = Some(now_ms);
        }
        due
    }

    /// One pass of the loop over what the node observed.
    #[verifier::rlimit(80)]
    pub fn pass(&mut self, obs: PassObs) -> (r: PassPlan)
        ensures
            final(self).cfg == old(self).cfg,
            obs.shutdown ==> r.next == PassNext::Exit && *final(self) == *old(self),
            !obs.shutdown && obs.manual_paused ==> r.next == (PassNext::Sleep {
                ms: SEAL_POLL_INTERVAL_MS,
                wakeable: false,
            }) && *final(self) == *old(self),
            r.nudge_lead_ms is Some <==> pass_nudges(
                old(self).cfg,
                old(self).next_seal_time_ms,
                old(self).ahead_fired_for,
                obs,
            ),
            r.nudge_lead_ms matches Some(l) ==> l == old(self).next_seal_time_ms - obs.now_ms
                && final(self).ahead_fired_for == Some(old(self).next_seal_time_ms),
            !obs.shutdown && !obs.manual_paused && obs.now_ms < old(self).next_seal_time_ms ==> {
                &&& r.next == (PassNext::Sleep {
                    ms: if old(self).next_seal_time_ms - obs.now_ms < SEAL_POLL_INTERVAL_MS {
                        (old(self).next_seal_time_ms - obs.now_ms) as u64
                    } else {
                        SEAL_POLL_INTERVAL_MS
                    },
                    wakeable: old(self).cfg.is_proposer,
                })
                &&& final(self).turn == (TurnWatch { deadline_ms: None, microcycles: 0, alerted: false })
                &&& !r.turn_alert
                &&& final(self).next_seal_time_ms == old(self).next_seal_time_ms
            },
            !obs.shutdown && !obs.manual_paused && obs.now_ms >= old(self).next_seal_time_ms
                ==> (final(self).turn, r.turn_alert) == turn_pass(
                old(self).turn,
                old(self).next_seal_time_ms,
                old(self).cfg.is_proposer,
            ),
            (r.next is RunLeaseGate) <==> pass_reaches_gates(
                old(self).cfg,
                old(self).next_seal_time_ms,
                obs,
            ),
            r.next matches PassNext::RunLeaseGate { target_h } ==> target_h == sat_add(obs.tip_h, 1)
                && final(self).next_seal_time_ms == old(self).next_seal_time_ms
                && r.slot_opened == (old(self).cfg.is_proposer && (window_closes(
                old(self).cfg,
                old(self).window_at_ms,
                obs.now_ms,
            ) || old(self).supp.active_deadline_ms != Some(old(self).next_seal_time_ms)))
                && (old(self).cfg.is_proposer ==> final(self).supp.active_deadline_ms == Some(
                old(self).next_seal_time_ms) && final(self).miss.height is None),
            (r.next == PassNext::ExitFatalPick) <==> (pass_reaches_producer(
                old(self).cfg,
                old(self).next_seal_time_ms,
                obs,
            ) && obs.producer == (ProducerObs::Unresolved { fatal: true })),
            r.next matches PassNext::TrySkip { lead_h } ==> {
                &&& pass_reaches_producer(old(self).cfg, old(self).next_seal_time_ms, obs)
                &&& obs.producer == ProducerObs::Other
                &&& lead_h == sat_add(obs.tip_h, 1)
                &&& final(self).miss.height == Some(lead_h)
                &&& sat_sub(obs.now_ms, final(self).miss.since_ms) >= old(self).cfg.nominal_ms
            },
            r.window_summary is Some <==> (!obs.shutdown && !obs.manual_paused && obs.now_ms
                >= old(self).next_seal_time_ms && window_closes(
                old(self).cfg,
                old(self).window_at_ms,
                obs.now_ms,
            )),
            r.stop_request ==> stop_spec(old(self).cfg, obs.tip_h),
            (r.next == PassNext::Exit) <==> obs.shutdown,
            (r.next is TrySkip) <==> (pass_reaches_producer(
                old(self).cfg,
                old(self).next_seal_time_ms,
                obs,
            ) && obs.producer == ProducerObs::Other && sat_sub(obs.now_ms, final(self).miss.since_ms)
                >= old(self).cfg.nominal_ms),
            pass_at_deadline(old(self).next_seal_time_ms, obs) && !obs.allows_progress ==> {
                &&& r.next == (PassNext::Sleep { ms: SEAL_POLL_INTERVAL_MS, wakeable: false })
                &&& (r.prep_summary_sec is Some <==> old(self).cfg.is_proposer && prep_due(
                    old(self).prep_summary_at_ms,
                    obs.now_ms,
                ))
                &&& r.prep_summary_sec matches Some(w) ==> w == sat_sub(
                    obs.now_ms,
                    if old(self).prep_wait_since_ms == 0 {
                        obs.now_ms
                    } else {
                        old(self).prep_wait_since_ms
                    },
                ) / 1000
            },
            pass_at_deadline(old(self).next_seal_time_ms, obs) && obs.allows_progress && (
            old(self).cfg.debug_disable || old(self).cfg.is_attester) ==> r.next == (PassNext::Sleep {
                ms: SEAL_POLL_INTERVAL_MS,
                wakeable: false,
            }) && r.stop_request == stop_spec(old(self).cfg, obs.tip_h),
            pass_waits_attesters(old(self).cfg, old(self).next_seal_time_ms, obs) ==> {
                &&& r.next == (PassNext::Sleep { ms: SEAL_WAIT_PEER_MS, wakeable: false })
                &&& r.wait_sync_h == if old(self).gate_dedup.waiting_sync_h != Some(wait_gate_h(obs)) {
                    Some(wait_gate_h(obs))
                } else {
                    None
                }
                &&& (r.prep_summary_sec is Some <==> prep_due(old(self).prep_summary_at_ms, obs.now_ms))
                &&& r.prep_summary_sec matches Some(w) ==> w == 0
                &&& !final(self).attester_was_ready
            },
            !pass_waits_attesters(old(self).cfg, old(self).next_seal_time_ms, obs) ==> r.wait_sync_h
                is None,
            r.attest_ready <==> pass_reaches_producer(old(self).cfg, old(self).next_seal_time_ms, obs)
                && !old(self).attester_was_ready,
            r.primary_wait <==> pass_reaches_producer(old(self).cfg, old(self).next_seal_time_ms, obs)
                && (obs.producer == ProducerObs::Other || obs.producer == (ProducerObs::Unresolved {
                fatal: false,
            })) && old(self).miss.height != Some(sat_add(obs.tip_h, 1)),
            pass_reaches_producer(old(self).cfg, old(self).next_seal_time_ms, obs) && (obs.producer
                == (ProducerObs::Unresolved { fatal: false }) || (obs.producer == ProducerObs::Other
                && !(r.next is TrySkip))) ==> r.next == (PassNext::Sleep {
                ms: SEAL_POLL_INTERVAL_MS,
                wakeable: false,
            }),
    {
        if obs.shutdown {
            return PassPlan {
                nudge_lead_ms: None,
                turn_alert: false,
                window_summary: None,
                prep_summary_sec: None,
                wait_sync_h: None,
                attest_ready: false,
                primary_wait: false,
                slot_opened: false,
                stop_request: false,
                next: PassNext::Exit,
            };
        }
        if obs.manual_paused {
            return PassPlan {
                nudge_lead_ms: None,
                turn_alert: false,
                window_summary: None,
                prep_summary_sec: None,
                wait_sync_h: None,
                attest_ready: false,
                primary_wait: false,
                slot_opened: false,
                stop_request: false,
                next: PassNext::Sleep { ms: SEAL_POLL_INTERVAL_MS, wakeable: false },
            };
        }
        let now_ms = obs.now_ms;
        let cfg = self.cfg;
        let deadline = self.next_seal_time_ms;
        let mut plan = PassPlan {
            nudge_lead_ms: None,
            turn_alert: false,
            window_summary: None,
            prep_summary_sec: None,
            wait_sync_h: None,
            attest_ready: false,
            primary_wait: false,
            slot_opened: false,
            stop_request: false,
            next: PassNext::Sleep { ms: SEAL_POLL_INTERVAL_MS, wakeable: false },
        };
        // Ahead nudge to the attesters, once per deadline.
        if cfg.is_proposer && cfg.seal_ahead_ms > 0 {
            if should_fire_seal_ahead(now_ms, deadline, cfg.seal_ahead_ms, self.ahead_fired_for) {
                let pre = cluster_seal_preflight(true, obs.att.sync_n, cfg.quorum_k);
                if pre == SealPreflight::Ready {
                    let lead = deadline - now_ms;
                    self.ahead_fired_for = Some(deadline);
                    self.ahead.note_fired(lead);
                    plan.nudge_lead_ms = Some(lead);
                } else {
                    self.ahead.note_preflight_skip();
                }
            }
        }
        // Before the deadline: reset the watchdog and sleep towards it.
        if !should_attempt_seal(now_ms, deadline) {
            self.turn.reset();
            plan.next = PassNext::Sleep {
                ms: poll_sleep_ms(now_ms, deadline, SEAL_POLL_INTERVAL_MS),
                wakeable: cfg.is_proposer,
            };
            return plan;
        }
        plan.turn_alert = self.turn.on_attempt(deadline, cfg.is_proposer);
        // The suppression window of a proposer closes every 100 s.
        let window_age = if now_ms >= self.window_at_ms {
            now_ms - self.window_at_ms
        } else {
            0
        };
        if cfg.is_proposer && window_age >= SEAL_SUPPRESS_WINDOW_SEC * 1000 {
            plan.window_summary = Some((self.supp, self.ahead));
            self.supp.reset();
            self.ahead.reset();
            self.window_at_ms = now_ms;
        }
        let stop = stop_due(obs.tip_h, cfg.stop_h);
        // The chain is not free to progress yet (loading).
        if !obs.allows_progress {
            if cfg.is_proposer {
                let (_, waited_sec) = prep_wait(&mut self.prep_wait_since_ms, now_ms);
                if self.take_prep_summary(now_ms) {
                    plan.prep_summary_sec = Some(waited_sec);
                }
            }
            return plan;
        }
        if cfg.is_proposer {
            self.prep_wait_since_ms = 0;
        }
        // Nodes that never seal locally only watch the stop height.
        if cfg.debug_disable || cfg.is_attester {
            plan.stop_request = stop;
            return plan;
        }
        if cfg.is_proposer {
            let pre = cluster_seal_preflight(true, obs.att.sync_n, cfg.quorum_k);
            if pre == SealPreflight::WaitingAttester {
                let gate_h = {
                    let h = obs.att.local_h.saturating_add(1);
                    if h >= 1 {
                        h
                    } else {
                        1
                    }
                };
                let (_, waited_sec) = prep_wait(&mut self.prep_wait_since_ms, now_ms);
                if self.gate_dedup.should_log_wait_sync(gate_h) {
                    plan.wait_sync_h = Some(gate_h);
                }
                if self.take_prep_summary(now_ms) {
                    plan.prep_summary_sec = Some(waited_sec);
                }
                self.attester_was_ready = false;
                plan.next = PassNext::Sleep { ms: SEAL_WAIT_PEER_MS, wakeable: false };
                return plan;
            }
            self.prep_wait_since_ms = 0;
            plan.attest_ready = attesters_ready_edge(&mut self.attester_was_ready, true);
            let lead_h = obs.tip_h.saturating_add(1);
            match obs.producer {
                ProducerObs::Local => {
                    self.miss.clear();
                },
                ProducerObs::Other => {
                    let step = self.miss.on_not_local(lead_h, now_ms, cfg.nominal_ms, true);
                    plan.primary_wait = step.started;
                    if step.try_skip {
                        plan.next = PassNext::TrySkip { lead_h };
                    }
                    return plan;
                },
                ProducerObs::Unresolved { fatal } => {
                    if fatal {
                        plan.next = PassNext::ExitFatalPick;
                        return plan;
                    }
                    let step = self.miss.on_not_local(lead_h, now_ms, cfg.nominal_ms, false);
                    plan.primary_wait = step.started;
                    return plan;
                },
            }
            plan.slot_opened = self.supp.begin_slot(deadline, now_ms);
        }
        plan.next = PassNext::RunLeaseGate { target_h: obs.tip_h.saturating_add(1) };
        plan
    }

    /// The missed height was (or was not) skipped to failover at `now_ms`:
    /// after a skip the wait ends and the next deadline moves to the grid.
    pub fn on_skip(&mut self, skipped: bool, now_ms: u64)
        ensures
            skipped ==> *final(self) == (SealLoop {
                miss: MissWatch { height: None, ..old(self).miss },
                next_seal_time_ms: align_next_spec(now_ms, old(self).cfg.nominal_ms),
                ..*old(self)
            }),
            !skipped ==> *final(self) == *old(self),
    {
        if skipped {
            self.miss.clear();
            self.next_seal_time_ms = align_next_seal_ms(now_ms, self.cfg.nominal_ms);
        }
    }

    /// The lease gate for `target_h` answered `ok` at `now_ms` (the chain at
    /// `tip_h`): go on to the cluster gate, or count a lease-fence strike
    /// (proposers) and sleep.
    pub fn on_lease_gate(&mut self, ok: bool, now_ms: u64, target_h: u64, tip_h: u64) -> (r: GateNext)
        ensures
            ok ==> r == GateNext::RunClusterGate && *final(self) == *old(self),
            !ok ==> r == (GateNext::Blocked { stop_request: stop_spec(old(self).cfg, tip_h) }),
            !ok && old(self).cfg.is_proposer ==> *final(self) == (SealLoop {
                supp: eval_supp_spec(
                    old(self).supp,
                    now_ms,
                    old(self).cfg.nominal_ms,
                    SuppressReason::LeaseFence,
                    Some(target_h),
                ).0,
                ..*old(self)
            }),
            !ok && !old(self).cfg.is_proposer ==> *final(self) == *old(self),
    {
        if ok {
            return GateNext::RunClusterGate;
        }
        if self.cfg.is_proposer {
            self.supp.eval_supp_for_height(
                now_ms,
                self.cfg.nominal_ms,
                SuppressReason::LeaseFence,
                Some(target_h),
            );
        }
        GateNext::Blocked { stop_request: stop_due(tip_h, self.cfg.stop_h) }
    }

    /// The cluster gate for `target_h` answered `ok` at `now_ms` (`rechecked`:
    /// this is the proposer's one recheck; `obs`: why it blocks, where
    /// known). Open: seal, with the next deadline on the grid after
    /// `now_ms`. A proposer's first refusal is rechecked at once; otherwise
    /// the pass counts as pending and, for a proposer, as a gate strike.
    pub fn on_cluster_gate(
        &mut self,
        ok: bool,
        rechecked: bool,
        obs: Option<GateBlock>,
        now_ms: u64,
        target_h: u64,
        tip_h: u64,
    ) -> (r: GateNext)
        ensures
            ok ==> r == (GateNext::Seal {
                scheduled_next: align_next_spec(now_ms, old(self).cfg.nominal_ms),
            }) && *final(self) == *old(self),
            !ok && !rechecked && old(self).cfg.is_proposer ==> r == GateNext::RecheckClusterGate
                && *final(self) == *old(self),
            !ok && (rechecked || !old(self).cfg.is_proposer) ==> {
                &&& r == (GateNext::Blocked { stop_request: stop_spec(old(self).cfg, tip_h) })
                &&& final(self).pending_ticks == sat_add(old(self).pending_ticks, 1)
                &&& !old(self).cfg.is_proposer ==> final(self).supp == old(self).supp
                &&& old(self).cfg.is_proposer ==> final(self).supp == eval_supp_spec(
                    noted(old(self).supp, obs, target_h),
                    now_ms,
                    old(self).cfg.nominal_ms,
                    SuppressReason::ClusterGate,
                    Some(target_h),
                ).0
                &&& *final(self) == (SealLoop {
                    pending_ticks: final(self).pending_ticks,
                    supp: final(self).supp,
                    ..*old(self)
                })
            },
    {
        if ok {
            return GateNext::Seal { scheduled_next: align_next_seal_ms(now_ms, self.cfg.nominal_ms) };
        }
        if !rechecked && gate_recheck_needed(self.cfg.is_proposer, ok) {
            return GateNext::RecheckClusterGate;
        }
        self.pending_ticks = self.pending_ticks.saturating_add(1);
        if self.cfg.is_proposer {
            match obs {
                Some(GateBlock::Wait) => {
                    self.supp.note_wait_for_height(target_h);
                },
                Some(GateBlock::Timeout) => {
                    self.supp.note_to_for_height(target_h);
                },
                None => {},
            }
            self.supp.eval_supp_for_height(
                now_ms,
                self.cfg.nominal_ms,
                SuppressReason::ClusterGate,
                Some(target_h),
            );
        }
        GateNext::Blocked { stop_request: stop_due(tip_h, self.cfg.stop_h) }
    }

    /// Height `h` was sealed at `now_ms`: the next deadline is the one
    /// scheduled before sealing, the watchdog and the slot close, the
    /// pending summary is due every tenth height, and the drift window
    /// closes every 100 blocks.
    pub fn on_sealed(&mut self, h: u64, now_ms: u64, scheduled_next: u64) -> (r: SealedPlan)
        ensures
            final(self).next_seal_time_ms == scheduled_next,
            final(self).turn == (TurnWatch { deadline_ms: None, microcycles: 0, alerted: false }),
            old(self).cfg.is_proposer ==> final(self).supp == (SealSuppressWindow {
                sealed_in: sat_add(old(self).supp.sealed_in, 1),
                active_deadline_ms: None,
                attempt_start_ms: None,
                supp_marked: false,
                ..old(self).supp
            }),
            !old(self).cfg.is_proposer ==> final(self).supp == old(self).supp,
            r.pending_summary is Some <==> cluster_pending_summary_hit_spec(h),
            r.pending_summary matches Some(t) ==> t == old(self).pending_ticks,
            final(self).pending_ticks == if cluster_pending_summary_hit_spec(h) {
                0
            } else {
                old(self).pending_ticks
            },
            r.drift is Some <==> sat_sub(h, old(self).drift_window_h) >= crate::lifecycle::SEAL_DRIFT_WINDOW_BLOCKS,
            r.drift matches Some((blocks, actual, d)) ==> {
                &&& blocks == sat_sub(h, old(self).drift_window_h)
                &&& actual == sat_sub(now_ms, old(self).drift_window_at_ms)
                &&& d == drift_window(old(self).effective_ms, old(self).cfg.nominal_ms, blocks, actual)
                &&& final(self).effective_ms == d.effective_ms
                &&& final(self).drift_window_h == h
                &&& final(self).drift_window_at_ms == now_ms
            },
            r.drift is None ==> final(self).effective_ms == old(self).effective_ms
                && final(self).drift_window_h == old(self).drift_window_h
                && final(self).drift_window_at_ms == old(self).drift_window_at_ms,
            r.stop_request == stop_spec(old(self).cfg, h),
            final(self).cfg == old(self).cfg,
            final(self).miss == old(self).miss,
            final(self).ahead == old(self).ahead,
            final(self).ahead_fired_for == old(self).ahead_fired_for,
    {
        self.next_seal_time_ms = scheduled_next;
        self.turn.reset();
        if self.cfg.is_proposer {
            self.supp.close_sealed();
        }
        let pending_summary = if cluster_pending_summary_hit(h) {
            let t = self.pending_ticks;
            self.pending_ticks = 0;
            Some(t)
        } else {
            None
        };
        let drift = if drift_window_closes(h, self.drift_window_h) {
            let blocks = h - self.drift_window_h;
            let actual = if now_ms >= self.drift_window_at_ms {
                now_ms - self.drift_window_at_ms
            } else {
                0
            };
            let d = drift_step(self.effective_ms, self.cfg.nominal_ms, blocks, actual);
            self.effective_ms = d.effective_ms;
            self.drift_window_h = h;
            self.drift_window_at_ms = now_ms;
            Some((blocks, actual, d))
        } else {
            None
        };
        SealedPlan { pending_summary, drift, stop_request: stop_due(h, self.cfg.stop_h) }
    }

    /// The seal failed at `now_ms` (the batch went back to the pool): retry
    /// one poll interval later.
    pub fn on_seal_failed(&mut self, now_ms: u64)
        ensures
            *final(self) == (SealLoop {
                next_seal_time_ms: sat_add(now_ms, SEAL_POLL_INTERVAL_MS),
                ..*old(self)
            }),
    {
        self.next_seal_time_ms = now_ms.saturating_add(SEAL_POLL_INTERVAL_MS);
    }
}

/// The debug stop height is reached at `h`.
pub open spec fn stop_spec(cfg: SealLoopCfg, h: u64) -> bool {
    cfg.stop_h matches Some(s) && h >= s
}

/// Every tenth height (not 0) reports the pending gate passes.
pub open spec fn cluster_pending_summary_hit_spec(h: u64) -> bool {
    h > 0 && h % 10 == 0
}

/// The window after noting why the cluster gate blocked `target_h`.
pub open spec fn noted(w: SealSuppressWindow, obs: Option<GateBlock>, target_h: u64) -> SealSuppressWindow {
    match obs {
        Some(GateBlock::Wait) => if w.wait_marked_h != Some(target_h) {
            SealSuppressWindow { wait_marked_h: Some(target_h), wait_att: sat_add(w.wait_att, 1), ..w }
        } else {
            w
        },
        Some(GateBlock::Timeout) => if w.timeout_marked_h != Some(target_h) {
            SealSuppressWindow {
                timeout_marked_h: Some(target_h),
                gate_to: sat_add(w.gate_to, 1),
                ..w
            }
        } else {
            w
        },
        None => w,
    }
}

} // verus!
