//! The seal loop's own bookkeeping between outside calls: the seal-turn
//! watchdog, the wait for the primary proposer, the cluster preparation
//! timer, the cadence drift window, and which transactions go back to the
//! pool after a failed seal.

use crate::lifecycle::{
    clamp_envelope_spec, drift_adjust_spec, in_deadband, seal_drift_adjust_ms,
    seal_drift_clamp_envelope, seal_drift_in_deadband, SEAL_DRIFT_WINDOW_BLOCKS,
};
use crate::text::{trim, trim_str};
use vstd::prelude::*;
use vstd::string::*;

verus! {

// ---------------------------------------------------------------------------
// Seal-turn watchdog
// ---------------------------------------------------------------------------

/// Loop passes over one deadline after which the watchdog alerts.
pub const TURN_WATCH_ALERT_PASSES: u32 = 20;

/// Passes the loop made over the current seal deadline, and whether it
/// alerted for that deadline.
#[derive(Clone, Copy, Debug, PartialEq, Eq)]
pub struct TurnWatch {
    pub deadline_ms: Option<u64>,
    pub microcycles: u32,
    pub alerted: bool,
}

pub open spec fn sat_inc32(x: u32) -> u32 {
    if x == u32::MAX {
        x
    } else {
        (x + 1) as u32
    }
}

/// Watch state after one attempt pass over `deadline_ms`, and whether that
/// pass raises the alert (proposers only, once per deadline, past 20 passes).
pub open spec fn turn_pass(w: TurnWatch, deadline_ms: u64, is_proposer: bool) -> (TurnWatch, bool) {
    let base = if w.deadline_ms != Some(deadline_ms) {
        TurnWatch { deadline_ms: Some(deadline_ms), microcycles: 0, alerted: false }
    } else {
        w
    };
    let passes = sat_inc32(base.microcycles);
    let alert = is_proposer && !base.alerted && passes > TURN_WATCH_ALERT_PASSES;
    (TurnWatch { deadline_ms: base.deadline_ms, microcycles: passes, alerted: base.alerted || alert }, alert)
}

impl TurnWatch {
    /// No deadline watched.
    pub fn new() -> (r: Self)
        ensures
            r == (TurnWatch { deadline_ms: None, microcycles: 0, alerted: false }),
    {
        TurnWatch { deadline_ms: None, microcycles: 0, alerted: false }
    }

    /// Forgets the deadline (before it is reached, and after a seal).
    pub fn reset(&mut self)
        ensures
            *final(self) == (TurnWatch { deadline_ms: None, microcycles: 0, alerted: false }),
    {
        self.deadline_ms = None;
        self.microcycles = 0;
        self.alerted = false;
    }

    /// Counts one attempt pass over `deadline_ms` (see [`turn_pass`]);
    /// returns whether to alert.
    pub fn on_attempt(&mut self, deadline_ms: u64, is_proposer: bool) -> (alert: bool)
        ensures
            (*final(self), alert) == turn_pass(*old(self), deadline_ms, is_proposer),
    {
        if self.deadline_ms != Some(deadline_ms) {
            self.deadline_ms = Some(deadline_ms);
            self.microcycles = 0;
            self.alerted = false;
        }
        self.microcycles = if self.microcycles == u32::MAX {
            u32::MAX
        } else {
            self.microcycles + 1
        };
        let alert = is_proposer && !self.alerted && self.microcycles > TURN_WATCH_ALERT_PASSES;
        if alert {
            self.alerted = true;
        }
        alert
    }
}

/// The watchdog alerts at most once per deadline: once a pass over a
/// deadline has alerted, further passes over it do not alert again and the
/// alert stays recorded.
pub proof fn lemma_one_alert_per_deadline(w: TurnWatch, d: u64, is_proposer: bool)
    requires
        turn_pass(w, d, is_proposer).1,
    ensures
        ({
            let s = turn_pass(w, d, is_proposer).0;
            &&& s.deadline_ms == Some(d)
            &&& s.alerted
            &&& !turn_pass(s, d, is_proposer).1
            &&& turn_pass(s, d, is_proposer).0.deadline_ms == Some(d)
            &&& turn_pass(s, d, is_proposer).0.alerted
        }),
{
}

/// A watch that has alerted for a deadline stays silent for it, however
/// many more passes the loop makes.
pub proof fn lemma_alerted_stays_silent(w: TurnWatch, d: u64, is_proposer: bool)
    requires
        w.deadline_ms == Some(d),
        w.alerted,
    ensures
        !turn_pass(w, d, is_proposer).1,
        turn_pass(w, d, is_proposer).0.deadline_ms == Some(d),
        turn_pass(w, d, is_proposer).0.alerted,
{
}

// ---------------------------------------------------------------------------
// Waiting for the primary proposer
// ---------------------------------------------------------------------------

/// The height the loop waits on another proposer for, and since when.
#[derive(Clone, Copy, Debug, PartialEq, Eq)]
pub struct MissWatch {
    pub height: Option<u64>,
    pub since_ms: u64,
}

/// What to do while another node is the primary proposer for `lead_h`.
#[derive(Clone, Copy, Debug, PartialEq, Eq)]
pub struct MissStep {
    /// The wait for this height starts now (log it).
    pub started: bool,
    /// A full cadence window has passed since: try to skip to failover.
    pub try_skip: bool,
}

impl MissWatch {
    /// Nothing watched.
    pub fn new() -> (r: Self)
        ensures
            r == (MissWatch { height: None, since_ms: 0 }),
    {
        MissWatch { height: None, since_ms: 0 }
    }

    /// This node proposes the height (or the wait was resolved): stop watching.
    pub fn clear(&mut self)
        ensures
            final(self).height is None,
            final(self).since_ms == old(self).since_ms,
    {
        self.height = None;
    }

    /// Another node is primary for `lead_h` at `now_ms`. The wait starts
    /// when the height is new; skipping is due once `window_ms` has passed
    /// since it started (only when `may_skip`, i.e. the primary is known
    /// rather than unresolved).
    pub fn on_not_local(&mut self, lead_h: u64, now_ms: u64, window_ms: u64, may_skip: bool) -> (r:
        MissStep)
        ensures
            r.started == (old(self).height != Some(lead_h)),
            final(self).height == Some(lead_h),
            final(self).since_ms == if r.started {
                now_ms
            } else {
                old(self).since_ms
            },
            r.try_skip == (may_skip && (if now_ms >= final(self).since_ms {
                now_ms - final(self).since_ms
            } else {
                0
            }) >= window_ms),
    {
        let started = self.height != Some(lead_h);
        if started {
            self.height = Some(lead_h);
            self.since_ms = now_ms;
        }
        let waited = if now_ms >= self.since_ms {
            now_ms - self.since_ms
        } else {
            0
        };
        MissStep { started, try_skip: may_skip && waited >= window_ms }
    }
}

// ---------------------------------------------------------------------------
// Cluster preparation timer and readiness edge
// ---------------------------------------------------------------------------

/// Start of the current preparation wait: the stored start, or `now_ms`
/// when none is stored (0); returns the start and the whole seconds since.
pub fn prep_wait(stored_since_ms: &mut u64, now_ms: u64) -> (r: (u64, u64))
    ensures
        r.0 == if *old(stored_since_ms) == 0 {
            now_ms
        } else {
            *old(stored_since_ms)
        },
        *final(stored_since_ms) == r.0,
        r.1 == (if now_ms >= r.0 {
            now_ms - r.0
        } else {
            0
        }) / 1000,
{
    if *stored_since_ms == 0 {
        *stored_since_ms = now_ms;
    }
    let since = *stored_since_ms;
    let waited = if now_ms >= since {
        now_ms - since
    } else {
        0
    };
    (since, waited / 1000)
}

/// Records whether attesters are ready; returns whether they just became
/// ready (the moment to log it).
pub fn attesters_ready_edge(was_ready: &mut bool, ready: bool) -> (became: bool)
    ensures
        became == (ready && !*old(was_ready)),
        *final(was_ready) == ready,
{
    let became = ready && !*was_ready;
    *was_ready = ready;
    became
}

/// Whether the debug stop height is reached at height `h`.
pub fn stop_due(h: u64, stop_h: Option<u64>) -> (r: bool)
    ensures
        r == (stop_h matches Some(s) && h >= s),
{
    match stop_h {
        Some(s) => h >= s,
        None => false,
    }
}

// ---------------------------------------------------------------------------
// Cadence drift window
// ---------------------------------------------------------------------------

/// Outcome of a closed drift window.
#[derive(Clone, Copy, Debug, PartialEq, Eq)]
pub struct DriftStep {
    pub effective_ms: u64,
    pub adjust_ppm: i64,
    pub clamp_applied: bool,
}

/// New effective cadence after a window of `blocks` blocks that took
/// `actual_ms`: unchanged inside the 0.1% deadband, else one drift step,
/// then clamped to the ±1% envelope around nominal.
pub open spec fn drift_window(effective_ms: u64, nominal_ms: u64, blocks: u64, actual_ms: u64) -> DriftStep {
    let expected = crate::lifecycle::sat_mul(blocks, nominal_ms);
    let (adjusted, ppm) = if in_deadband(actual_ms, expected) {
        (effective_ms, 0int)
    } else {
        drift_adjust_spec(effective_ms, actual_ms, expected)
    };
    let (clamped, applied) = clamp_envelope_spec(nominal_ms, adjusted);
    DriftStep { effective_ms: clamped, adjust_ppm: ppm as i64, clamp_applied: applied }
}

proof fn lemma_drift_cap_bounds(e: u64)
    requires
        e >= 100,
        e * 10_000 <= u64::MAX,
    ensures
        1 <= crate::lifecycle::drift_cap(e) < e,
        crate::lifecycle::drift_cap(e) as int * 1_000_000 >= e,
        crate::lifecycle::drift_cap(e) as int * 1_000_000 / (e as int) <= 10_000,
{
    let c = crate::lifecycle::drift_cap(e);
    assert(crate::lifecycle::sat_mul(e, 10_000) == e * 10_000);
    assert(c == (e * 10_000) / 1_000_000);
    assert(1 <= (e as int * 10_000) / 1_000_000 < e) by (nonlinear_arith)
        requires
            e >= 100,
    ;
    assert(((e as int * 10_000) / 1_000_000) * 1_000_000 >= e) by (nonlinear_arith)
        requires
            e >= 100,
    ;
    assert(((e as int * 10_000) / 1_000_000) * 1_000_000 / (e as int) <= 10_000) by (nonlinear_arith)
        requires
            e >= 100,
    {
        assert(((e as int * 10_000) / 1_000_000) * 1_000_000 <= e as int * 10_000) by (nonlinear_arith);
        assert((e as int * 10_000) / (e as int) == 10_000) by (nonlinear_arith)
            requires e >= 100;
    }
}

/// A drift window is measured against `blocks` times the nominal cadence,
/// whatever the effective cadence is: a window that ran at an effective
/// cadence off nominal (outside the deadband) moves the cadence back toward
/// nominal, lengthening a fast one and shortening a slow one, and reports a
/// change of the same sign.
pub proof fn lemma_drift_pulls_toward_nominal(effective_ms: u64, nominal_ms: u64, blocks: u64)
    requires
        blocks >= 1,
        nominal_ms >= 1,
        effective_ms >= 100,
        effective_ms * 10_000 <= u64::MAX,
        nominal_ms * 1_010 <= u64::MAX,
        blocks * nominal_ms <= u64::MAX,
        blocks * effective_ms <= u64::MAX,
        !in_deadband((blocks * effective_ms) as u64, (blocks * nominal_ms) as u64),
    ensures
        effective_ms < nominal_ms ==> drift_window(
            effective_ms,
            nominal_ms,
            blocks,
            (blocks * effective_ms) as u64,
        ).effective_ms > effective_ms && drift_window(
            effective_ms,
            nominal_ms,
            blocks,
            (blocks * effective_ms) as u64,
        ).adjust_ppm > 0,
        effective_ms > nominal_ms ==> drift_window(
            effective_ms,
            nominal_ms,
            blocks,
            (blocks * effective_ms) as u64,
        ).effective_ms < effective_ms && drift_window(
            effective_ms,
            nominal_ms,
            blocks,
            (blocks * effective_ms) as u64,
        ).adjust_ppm < 0,
{
    let actual = (blocks * effective_ms) as u64;
    let expected = (blocks * nominal_ms) as u64;
    assert(crate::lifecycle::sat_mul(blocks, nominal_ms) == expected);
    lemma_drift_cap_bounds(effective_ms);
    let cap = crate::lifecycle::drift_cap(effective_ms);
    assert(blocks * nominal_ms >= 1) by (nonlinear_arith)
        requires
            blocks >= 1,
            nominal_ms >= 1,
    ;
    assert(crate::lifecycle::sat_mul(nominal_ms, 1_010) == nominal_ms * 1_010);
    assert((nominal_ms as int * 1_010) / 1_000 >= nominal_ms) by (nonlinear_arith);
    assert(crate::lifecycle::sat_mul(nominal_ms, 990) == nominal_ms * 990);
    assert((nominal_ms as int * 990) / 1_000 <= nominal_ms) by (nonlinear_arith);
    if effective_ms < nominal_ms {
        assert(blocks * effective_ms < blocks * nominal_ms) by (nonlinear_arith)
            requires
                blocks >= 1,
                effective_ms < nominal_ms,
        ;
        assert(cap as int * 1_000_000 / (effective_ms as int) > 0) by (nonlinear_arith)
            requires
                cap as int * 1_000_000 >= effective_ms,
                effective_ms >= 100,
        ;
        let next = crate::lifecycle::drift_next(effective_ms, actual, expected);
        assert(next == effective_ms + cap);
        assert(crate::lifecycle::drift_adjust_spec(effective_ms, actual, expected) == (
            next,
            crate::lifecycle::drift_ppm(effective_ms, next),
        ));
        assert(crate::lifecycle::drift_ppm(effective_ms, next) == cap as int * 1_000_000
            / (effective_ms as int));
        assert(crate::lifecycle::envelope_hi(nominal_ms) >= nominal_ms);
        assert(!in_deadband(actual, expected));
        assert(crate::lifecycle::clamp_envelope_spec(nominal_ms, next).0 > effective_ms);
        assert(drift_window(effective_ms, nominal_ms, blocks, actual).effective_ms
            == crate::lifecycle::clamp_envelope_spec(nominal_ms, next).0);
    }
    if effective_ms > nominal_ms {
        assert(blocks * effective_ms > blocks * nominal_ms) by (nonlinear_arith)
            requires
                blocks >= 1,
                effective_ms > nominal_ms,
        ;
        assert(cap as int * 1_000_000 / (effective_ms as int) > 0) by (nonlinear_arith)
            requires
                cap as int * 1_000_000 >= effective_ms,
                effective_ms >= 100,
        ;
        let next = crate::lifecycle::drift_next(effective_ms, actual, expected);
        assert(next == effective_ms - cap);
        assert(crate::lifecycle::drift_adjust_spec(effective_ms, actual, expected) == (
            next,
            crate::lifecycle::drift_ppm(effective_ms, next),
        ));
        assert(crate::lifecycle::drift_ppm(effective_ms, next) == -(cap as int * 1_000_000
            / (effective_ms as int)));
        assert(crate::lifecycle::envelope_lo(nominal_ms) <= nominal_ms);
        assert(crate::lifecycle::clamp_envelope_spec(nominal_ms, next).0 < effective_ms);
        assert(drift_window(effective_ms, nominal_ms, blocks, actual).effective_ms
            == crate::lifecycle::clamp_envelope_spec(nominal_ms, next).0);
    }
}

/// Whatever a window measured, the new cadence stays within 1% of nominal
/// (rounded down on the low side, at least 1 ms) and the reported change is
/// at most 1% (10 000 ppm) either way.
pub proof fn lemma_drift_stays_in_envelope(
    effective_ms: u64,
    nominal_ms: u64,
    blocks: u64,
    actual_ms: u64,
)
    requires
        nominal_ms >= 1,
        nominal_ms * 1_010 <= u64::MAX,
    ensures
        drift_window(effective_ms, nominal_ms, blocks, actual_ms).effective_ms * 1_000
            <= nominal_ms * 1_010,
        drift_window(effective_ms, nominal_ms, blocks, actual_ms).effective_ms >= 1,
        (drift_window(effective_ms, nominal_ms, blocks, actual_ms).effective_ms + 1) * 1_000
            > nominal_ms * 990,
        -10_000 <= drift_window(effective_ms, nominal_ms, blocks, actual_ms).adjust_ppm <= 10_000,
{
    assert(crate::lifecycle::sat_mul(nominal_ms, 1_010) == nominal_ms * 1_010);
    assert(crate::lifecycle::sat_mul(nominal_ms, 990) == nominal_ms * 990);
    let hi = crate::lifecycle::envelope_hi(nominal_ms);
    assert(hi * 1_000 <= nominal_ms * 1_010) by (nonlinear_arith)
        requires
            hi == (nominal_ms * 1_010) / 1_000,
    ;
    assert(hi >= 1) by (nonlinear_arith)
        requires
            hi == (nominal_ms * 1_010) / 1_000,
            nominal_ms >= 1,
    ;
    let lo0 = (nominal_ms * 990) / 1_000;
    assert((lo0 + 1) * 1_000 > nominal_ms * 990) by (nonlinear_arith)
        requires
            lo0 == (nominal_ms * 990) / 1_000,
    ;
    assert(lo0 <= hi) by (nonlinear_arith)
        requires
            lo0 == (nominal_ms * 990) / 1_000,
            hi == (nominal_ms * 1_010) / 1_000,
    ;
    let expected = crate::lifecycle::sat_mul(blocks, nominal_ms);
    if !in_deadband(actual_ms, expected) && !(effective_ms <= 1 || expected == 0 || actual_ms
        == expected) && crate::lifecycle::drift_cap(effective_ms) != 0 {
        let cap = crate::lifecycle::drift_cap(effective_ms);
        let next = crate::lifecycle::drift_next(effective_ms, actual_ms, expected);
        let d = if next >= effective_ms {
            (next - effective_ms) as u64
        } else {
            (effective_ms - next) as u64
        };
        assert(d <= cap);
        crate::lifecycle::lemma_ppm_bound(d, cap, effective_ms);
    }
}

/// Inside the 0.1% deadband of `blocks` times the nominal cadence, a
/// cadence already within the envelope stays as it is, with no change
/// reported and no clamp.
pub proof fn lemma_drift_deadband_keeps(
    effective_ms: u64,
    nominal_ms: u64,
    blocks: u64,
    actual_ms: u64,
)
    requires
        nominal_ms >= 1,
        blocks >= 1,
        nominal_ms * 1_010 <= u64::MAX,
        blocks * nominal_ms * 1_000 <= u64::MAX,
        (if actual_ms >= blocks * nominal_ms {
            actual_ms - blocks * nominal_ms
        } else {
            blocks * nominal_ms - actual_ms
        }) * 1_000_000 < 1_000 * (blocks * nominal_ms),
        effective_ms * 1_000 >= nominal_ms * 990,
        effective_ms * 1_000 <= nominal_ms * 1_010,
    ensures
        drift_window(effective_ms, nominal_ms, blocks, actual_ms) == (DriftStep {
            effective_ms,
            adjust_ppm: 0,
            clamp_applied: false,
        }),
{
    let expected = (blocks * nominal_ms) as u64;
    assert(blocks * nominal_ms >= 1) by (nonlinear_arith)
        requires
            blocks >= 1,
            nominal_ms >= 1,
    ;
    assert(crate::lifecycle::sat_mul(blocks, nominal_ms) == expected);
    let diff = (crate::lifecycle::max_u64(actual_ms, expected) - crate::lifecycle::min_u64(
        actual_ms,
        expected,
    )) as u64;
    assert(diff * 1_000_000 < 1_000 * expected);
    assert(crate::lifecycle::sat_mul(diff, 1_000_000) == diff * 1_000_000);
    assert((diff * 1_000_000) / (expected as int) < 1_000) by (nonlinear_arith)
        requires
            diff * 1_000_000 < 1_000 * expected,
            expected >= 1,
    ;
    assert(in_deadband(actual_ms, expected));
    assert(crate::lifecycle::sat_mul(nominal_ms, 1_010) == nominal_ms * 1_010);
    assert(crate::lifecycle::sat_mul(nominal_ms, 990) == nominal_ms * 990);
    let hi = crate::lifecycle::envelope_hi(nominal_ms);
    assert(effective_ms <= hi) by (nonlinear_arith)
        requires
            hi == (nominal_ms * 1_010) / 1_000,
            effective_ms * 1_000 <= nominal_ms * 1_010,
    ;
    let lo0 = (nominal_ms * 990) / 1_000;
    assert(effective_ms >= lo0) by (nonlinear_arith)
        requires
            lo0 == (nominal_ms * 990) / 1_000,
            effective_ms * 1_000 >= nominal_ms * 990,
    ;
    assert(effective_ms >= 1) by (nonlinear_arith)
        requires
            effective_ms * 1_000 >= nominal_ms * 990,
            nominal_ms >= 1,
    ;
}

/// Whether a drift window from height `window_h` closes at height `h`.
pub fn drift_window_closes(h: u64, window_h: u64) -> (r: bool)
    ensures
        r == ((if h >= window_h {
            h - window_h
        } else {
            0
        }) >= SEAL_DRIFT_WINDOW_BLOCKS),
{
    let blocks = if h >= window_h {
        h - window_h
    } else {
        0
    };
    blocks >= SEAL_DRIFT_WINDOW_BLOCKS
}

/// Closes a drift window (see [`drift_window`]).
pub fn drift_step(effective_ms: u64, nominal_ms: u64, blocks: u64, actual_ms: u64) -> (r: DriftStep)
    ensures
        r == drift_window(effective_ms, nominal_ms, blocks, actual_ms),
        blocks >= 1 && nominal_ms >= 1 && effective_ms >= 100 && effective_ms * 10_000 <= u64::MAX
            && nominal_ms * 1_010 <= u64::MAX && blocks * nominal_ms <= u64::MAX && actual_ms
            == blocks * effective_ms && !in_deadband(actual_ms, (blocks * nominal_ms) as u64) ==> {
            &&& effective_ms < nominal_ms ==> r.effective_ms > effective_ms && r.adjust_ppm > 0
            &&& effective_ms > nominal_ms ==> r.effective_ms < effective_ms && r.adjust_ppm < 0
        },
        nominal_ms >= 1 && nominal_ms * 1_010 <= u64::MAX ==> {
            &&& r.effective_ms >= 1
            &&& r.effective_ms * 1_000 <= nominal_ms * 1_010
            &&& (r.effective_ms + 1) * 1_000 > nominal_ms * 990
            &&& -10_000 <= r.adjust_ppm <= 10_000
        },
        nominal_ms >= 1 && blocks >= 1 && nominal_ms * 1_010 <= u64::MAX && blocks * nominal_ms
            * 1_000 <= u64::MAX && (if actual_ms >= blocks * nominal_ms {
            actual_ms - blocks * nominal_ms
        } else {
            blocks * nominal_ms - actual_ms
        }) * 1_000_000 < 1_000 * (blocks * nominal_ms) && effective_ms * 1_000 >= nominal_ms * 990
            && effective_ms * 1_000 <= nominal_ms * 1_010 ==> r == (DriftStep {
            effective_ms,
            adjust_ppm: 0,
            clamp_applied: false,
        }),
{
    proof {
        if nominal_ms >= 1 && nominal_ms * 1_010 <= u64::MAX {
            lemma_drift_stays_in_envelope(effective_ms, nominal_ms, blocks, actual_ms);
        }
        if nominal_ms >= 1 && blocks >= 1 && nominal_ms * 1_010 <= u64::MAX && blocks * nominal_ms
            * 1_000 <= u64::MAX && (if actual_ms >= blocks * nominal_ms {
            actual_ms - blocks * nominal_ms
        } else {
            blocks * nominal_ms - actual_ms
        }) * 1_000_000 < 1_000 * (blocks * nominal_ms) && effective_ms * 1_000 >= nominal_ms * 990
            && effective_ms * 1_000 <= nominal_ms * 1_010 {
            lemma_drift_deadband_keeps(effective_ms, nominal_ms, blocks, actual_ms);
        }
        if blocks >= 1 && nominal_ms >= 1 && effective_ms >= 100 && effective_ms * 10_000
            <= u64::MAX && nominal_ms * 1_010 <= u64::MAX && blocks * nominal_ms <= u64::MAX
            && actual_ms == blocks * effective_ms && !in_deadband(
            actual_ms,
            (blocks * nominal_ms) as u64,
        ) {
            lemma_drift_pulls_toward_nominal(effective_ms, nominal_ms, blocks);
        }
    }
    let expected = crate::lifecycle::mul_sat(blocks, nominal_ms);
    let (adjusted, ppm) = if seal_drift_in_deadband(actual_ms, expected) {
        (effective_ms, 0i64)
    } else {
        seal_drift_adjust_ms(effective_ms, actual_ms, expected)
    };
    let (clamped, applied) = seal_drift_clamp_envelope(nominal_ms, adjusted);
    DriftStep { effective_ms: clamped, adjust_ppm: ppm, clamp_applied: applied }
}

// ---------------------------------------------------------------------------
// Requeue after a failed seal
// ---------------------------------------------------------------------------

/// What a failed seal needs to know of a pending transaction.
#[derive(Clone, Copy, Debug, PartialEq, Eq)]
pub struct PendingTx {
    pub sender: [u8; 32],
    pub nonce: u64,
    pub hash: [u8; 32],
}

/// A transaction after the unapplicable one at `bad`, from the same
/// sender and with a nonce the chain already passed.
pub open spec fn stale_after(txs: Seq<PendingTx>, bad: int, on_chain_nonce: u64, k: int) -> bool {
    bad < k < txs.len() && txs[k].sender == txs[bad].sender && txs[k].nonce <= on_chain_nonce
}

/// Whether a transaction goes back to the pool: everything before the
/// unapplicable one, and after it whatever does not share its hash with a
/// stale transaction.
pub open spec fn requeued(txs: Seq<PendingTx>, bad: int, on_chain_nonce: u64, j: int) -> bool {
    (0 <= j < bad) || (bad < j < txs.len() && !exists|k: int|
        #[trigger] stale_after(txs, bad, on_chain_nonce, k) && txs[k].hash == txs[j].hash)
}

/// Whether a hash is evicted: the unapplicable transaction's and every
/// stale one's.
pub open spec fn evicted(txs: Seq<PendingTx>, bad: int, on_chain_nonce: u64, h: [u8; 32]) -> bool {
    h == txs[bad].hash || exists|k: int| #[trigger] stale_after(txs, bad, on_chain_nonce, k) && txs[k].hash == h
}

/// After a failed seal only the unapplicable transaction's sender is
/// punished: a later transaction from another sender goes back to the pool
/// unless its hash is that of a later transaction of the failed sender with
/// a nonce the chain already passed.
pub proof fn lemma_requeue_spares_other_senders(
    txs: Seq<PendingTx>,
    bad: int,
    on_chain_nonce: u64,
    j: int,
)
    requires
        0 <= bad < j < txs.len(),
        txs[j].sender != txs[bad].sender,
        forall|k: int|
            bad < k < txs.len() && #[trigger] txs[k].sender == txs[bad].sender && txs[k].nonce
                <= on_chain_nonce ==> txs[k].hash != txs[j].hash,
    ensures
        requeued(txs, bad, on_chain_nonce, j),
{
    if exists|k: int| #[trigger] stale_after(txs, bad, on_chain_nonce, k) && txs[k].hash == txs[j].hash {
        let k = choose|k: int| #[trigger] stale_after(txs, bad, on_chain_nonce, k) && txs[k].hash == txs[j].hash;
        assert(txs[k].sender == txs[bad].sender);
    }
}

/// What a failed seal evicts: the unapplicable transaction's hash and the
/// hash of every later transaction from the same sender whose nonce the
/// chain already passed, and nothing else; those stale transactions and
/// the unapplicable one never go back to the pool, while everything before
/// the unapplicable one does.
pub proof fn lemma_requeue_evicts_stale_same_sender(
    txs: Seq<PendingTx>,
    bad: int,
    on_chain_nonce: u64,
    h: [u8; 32],
    k: int,
)
    requires
        0 <= bad < txs.len(),
    ensures
        evicted(txs, bad, on_chain_nonce, h) <==> (h == txs[bad].hash || exists|m: int|
            bad < m < txs.len() && #[trigger] txs[m].sender == txs[bad].sender && txs[m].nonce
                <= on_chain_nonce && txs[m].hash == h),
        bad < k < txs.len() && txs[k].sender == txs[bad].sender && txs[k].nonce <= on_chain_nonce
            ==> !requeued(txs, bad, on_chain_nonce, k) && evicted(txs, bad, on_chain_nonce, txs[k].hash),
        !requeued(txs, bad, on_chain_nonce, bad),
        0 <= k < bad ==> requeued(txs, bad, on_chain_nonce, k),
{
    if exists|m: int|
        bad < m < txs.len() && #[trigger] txs[m].sender == txs[bad].sender && txs[m].nonce
            <= on_chain_nonce && txs[m].hash == h {
        let m = choose|m: int|
            bad < m < txs.len() && #[trigger] txs[m].sender == txs[bad].sender && txs[m].nonce
                <= on_chain_nonce && txs[m].hash == h;
        assert(stale_after(txs, bad, on_chain_nonce, m));
    }
    if exists|m: int| #[trigger] stale_after(txs, bad, on_chain_nonce, m) && txs[m].hash == h {
        let m = choose|m: int| #[trigger] stale_after(txs, bad, on_chain_nonce, m) && txs[m].hash == h;
        assert(txs[m].sender == txs[bad].sender);
    }
    if bad < k < txs.len() && txs[k].sender == txs[bad].sender && txs[k].nonce <= on_chain_nonce {
        assert(stale_after(txs, bad, on_chain_nonce, k));
    }
}

/// Which transactions go back to the pool (indices, in order) and which
/// hashes are evicted, after the transaction at `bad` could not be applied
/// and its sender's on-chain nonce is `on_chain_nonce`.
pub fn requeue_after_failure(txs: &Vec<PendingTx>, bad: usize, on_chain_nonce: u64) -> (r: (
    Vec<usize>,
    Vec<[u8; 32]>,
))
    requires
        bad < txs@.len(),
    ensures
        forall|a: int, b: int| 0 <= a < b < r.0@.len() ==> r.0@[a] < r.0@[b],
        forall|j: int| 0 <= j < txs@.len() ==> (r.0@.contains(j as usize) <==> requeued(
            txs@,
            bad as int,
            on_chain_nonce,
            j,
        )),
        forall|i: int| 0 <= i < r.0@.len() ==> r.0@[i] < txs@.len(),
        forall|h: [u8; 32]| r.1@.contains(h) <==> evicted(txs@, bad as int, on_chain_nonce, h),
        forall|h: [u8; 32]|
            #[trigger] r.1@.contains(h) <==> (h == txs@[bad as int].hash || exists|m: int|
                bad < m < txs@.len() && #[trigger] txs@[m].sender == txs@[bad as int].sender
                    && txs@[m].nonce <= on_chain_nonce && txs@[m].hash == h),
        forall|j: int|
            bad < j < txs@.len() && txs@[j].sender != txs@[bad as int].sender && (forall|k: int|
                bad < k < txs@.len() && #[trigger] txs@[k].sender == txs@[bad as int].sender
                    && txs@[k].nonce <= on_chain_nonce ==> txs@[k].hash != txs@[j].hash)
                ==> #[trigger] r.0@.contains(j as usize),
        forall|k: int|
            bad < k < txs@.len() && #[trigger] txs@[k].sender == txs@[bad as int].sender
                && txs@[k].nonce <= on_chain_nonce ==> !r.0@.contains(k as usize),
        !r.0@.contains(bad),
        forall|j: int| 0 <= j < bad ==> #[trigger] r.0@.contains(j as usize),
{
    let n = txs.len();
    let bad_sender = txs[bad].sender;
    let ghost hb = txs@[bad as int].hash;
    let mut evicted_v: Vec<[u8; 32]> = Vec::new();
    evicted_v.push(txs[bad].hash);
    proof {
        assert forall|h: [u8; 32]| evicted_v@.contains(h) <==> (h == hb || exists|m: int|
            #![trigger txs@[m]]
            bad < m < bad + 1 && stale_after(txs@, bad as int, on_chain_nonce, m) && txs@[m].hash
                == h) by {
            if h == hb {
                assert(evicted_v@[0] == h);
            }
        }
    }
    let mut k: usize = bad + 1;
    while k < n
        invariant
            n == txs@.len(),
            bad < k <= txs@.len(),
            bad_sender == txs@[bad as int].sender,
            hb == txs@[bad as int].hash,
            forall|h: [u8; 32]| evicted_v@.contains(h) <==> (h == hb || exists|m: int|
                #![trigger txs@[m]]
                bad < m < k && stale_after(txs@, bad as int, on_chain_nonce, m) && txs@[m].hash == h),
        decreases txs@.len() - k,
    {
        let ghost old_ev = evicted_v@;
        let t = txs[k];
        let is_stale = crate::ledger::id_eq(&t.sender, &bad_sender) && t.nonce <= on_chain_nonce;
        assert(is_stale == stale_after(txs@, bad as int, on_chain_nonce, k as int));
        if is_stale {
            evicted_v.push(t.hash);
        }
        proof {
            assert forall|h: [u8; 32]| evicted_v@.contains(h) <==> (h == hb || exists|m: int|
                #![trigger txs@[m]]
                bad < m < k + 1 && stale_after(txs@, bad as int, on_chain_nonce, m) && txs@[m].hash
                    == h) by {
                if is_stale {
                    assert(evicted_v@ == old_ev.push(t.hash));
                    if evicted_v@.contains(h) {
                        let i = choose|i: int| 0 <= i < evicted_v@.len() && evicted_v@[i] == h;
                        if i < old_ev.len() {
                            assert(old_ev.contains(h));
                        } else {
                            assert(txs@[k as int].hash == h);
                        }
                    }
                    if old_ev.contains(h) {
                        let i = choose|i: int| 0 <= i < old_ev.len() && old_ev[i] == h;
                        assert(evicted_v@[i] == h);
                    }
                    if txs@[k as int].hash == h {
                        assert(evicted_v@[old_ev.len() as int] == h);
                    }
                }
                if exists|m: int|
                    #![trigger txs@[m]]
                    bad < m < k + 1 && stale_after(txs@, bad as int, on_chain_nonce, m)
                        && txs@[m].hash == h {
                    let m = choose|m: int|
                        #![trigger txs@[m]]
                        bad < m < k + 1 && stale_after(txs@, bad as int, on_chain_nonce, m)
                            && txs@[m].hash == h;
                    if m < k {
                        assert(old_ev.contains(h));
                    }
                }
            }
        }
        k = k + 1;
    }
    let mut kept: Vec<usize> = Vec::new();
    let mut j: usize = 0;
    while j < n
        invariant
            n == txs@.len(),
            bad < txs@.len(),
            j <= txs@.len(),
            forall|a: int, b: int| 0 <= a < b < kept@.len() ==> kept@[a] < kept@[b],
            forall|i: int| 0 <= i < kept@.len() ==> kept@[i] < j,
            forall|m: int| 0 <= m < j ==> (kept@.contains(m as usize) <==> requeued(
                txs@,
                bad as int,
                on_chain_nonce,
                m,
            )),
        decreases txs@.len() - j,
    {
        let keep = if j < bad {
            true
        } else if j == bad {
            false
        } else {
            !stale_hash(txs, bad, on_chain_nonce, &txs[j].hash)
        };
        assert(keep == requeued(txs@, bad as int, on_chain_nonce, j as int));
        let ghost old_kept = kept@;
        if keep {
            kept.push(j);
        }
        proof {
            assert forall|m: int| 0 <= m < j + 1 implies (kept@.contains(m as usize) <==> requeued(
                txs@,
                bad as int,
                on_chain_nonce,
                m,
            )) by {
                if kept@.contains(m as usize) {
                    let i = choose|i: int| 0 <= i < kept@.len() && kept@[i] == m as usize;
                    if i < old_kept.len() {
                        assert(old_kept[i] == m as usize);
                        assert(old_kept.contains(m as usize));
                    }
                }
                if m < j && old_kept.contains(m as usize) {
                    let i = choose|i: int| 0 <= i < old_kept.len() && old_kept[i] == m as usize;
                    assert(kept@[i] == m as usize);
                }
                if m == j {
                    if old_kept.contains(j) {
                        let i = choose|i: int| 0 <= i < old_kept.len() && old_kept[i] == j;
                        assert(old_kept[i] < j);
                    }
                    if keep {
                        assert(kept@[old_kept.len() as int] == j);
                    }
                }
            }
        }
        j = j + 1;
    }
    proof {
        assert forall|h: [u8; 32]| evicted_v@.contains(h) <==> evicted(txs@, bad as int, on_chain_nonce, h) by {
            if exists|m: int| #[trigger] stale_after(txs@, bad as int, on_chain_nonce, m) && txs@[m].hash == h {
                let m = choose|m: int| #[trigger] stale_after(txs@, bad as int, on_chain_nonce, m) && txs@[m].hash == h;
                assert(bad < m < n && stale_after(txs@, bad as int, on_chain_nonce, m) && txs@[m].hash == h);
            }
        }
    }
    proof {
        let t = txs@;
        let b = bad as int;
        assert forall|h: [u8; 32]|
            #[trigger] evicted_v@.contains(h) <==> (h == t[b].hash || exists|m: int|
                b < m < t.len() && #[trigger] t[m].sender == t[b].sender && t[m].nonce
                    <= on_chain_nonce && t[m].hash == h) by {
            lemma_requeue_evicts_stale_same_sender(t, b, on_chain_nonce, h, 0);
        }
        assert forall|j: int|
            b < j < t.len() && t[j].sender != t[b].sender && (forall|k: int|
                b < k < t.len() && #[trigger] t[k].sender == t[b].sender && t[k].nonce
                    <= on_chain_nonce ==> t[k].hash != t[j].hash) implies #[trigger] kept@.contains(
            j as usize) by {
            lemma_requeue_spares_other_senders(t, b, on_chain_nonce, j);
        }
        assert forall|k: int|
            b < k < t.len() && #[trigger] t[k].sender == t[b].sender && t[k].nonce
                <= on_chain_nonce implies !kept@.contains(k as usize) by {
            lemma_requeue_evicts_stale_same_sender(t, b, on_chain_nonce, t[b].hash, k);
        }
        lemma_requeue_evicts_stale_same_sender(t, b, on_chain_nonce, t[b].hash, 0);
        assert forall|j: int| 0 <= j < b implies #[trigger] kept@.contains(j as usize) by {
            lemma_requeue_evicts_stale_same_sender(t, b, on_chain_nonce, t[b].hash, j);
        }
    }
    (kept, evicted_v)
}

/// Whether a transaction after the unapplicable one shares its hash with
/// a stale transaction.
fn stale_hash(txs: &Vec<PendingTx>, bad: usize, on_chain_nonce: u64, h: &[u8; 32]) -> (r: bool)
    requires
        bad < txs@.len(),
    ensures
        r == exists|k: int| #[trigger] stale_after(txs@, bad as int, on_chain_nonce, k) && txs@[k].hash == *h,
{
    let n = txs.len();
    let mut k: usize = bad + 1;
    while k < txs.len()
        invariant
            bad < k <= txs@.len(),
            forall|m: int| bad < m < k ==> !(#[trigger] stale_after(txs@, bad as int, on_chain_nonce, m)
                && txs@[m].hash == *h),
        decreases txs@.len() - k,
    {
        let t = txs[k];
        if crate::ledger::id_eq(&t.sender, &txs[bad].sender) && t.nonce <= on_chain_nonce
            && crate::ledger::id_eq(&t.hash, h) {
            assert(stale_after(txs@, bad as int, on_chain_nonce, k as int));
            return true;
        }
        k = k + 1;
    }
    false
}

// ---------------------------------------------------------------------------
// Choosing what to seal
// ---------------------------------------------------------------------------

/// Whether the entry at `i` is sealed: its hash is not evicted and no
/// earlier entry has the same hash (the first of duplicates stays).
pub open spec fn entry_sealed(hashes: Seq<[u8; 32]>, evicted: Seq<[u8; 32]>, i: int) -> bool {
    &&& !evicted.contains(hashes[i])
    &&& forall|j: int| 0 <= j < i && !evicted.contains(hashes[j]) ==> hashes[j] != hashes[i]
}

fn contains_hash(v: &Vec<[u8; 32]>, h: &[u8; 32]) -> (r: bool)
    ensures
        r == v@.contains(*h),
{
    let mut i: usize = 0;
    while i < v.len()
        invariant
            i <= v@.len(),
            forall|j: int| 0 <= j < i ==> v@[j] != *h,
        decreases v@.len() - i,
    {
        if crate::ledger::id_eq(&v[i], h) {
            return true;
        }
        i = i + 1;
    }
    false
}

/// Indices (in order) of the entries a seal takes: evicted hashes are
/// skipped, then only the first entry of each hash stays.
pub fn seal_entry_indices(hashes: &Vec<[u8; 32]>, evicted: &Vec<[u8; 32]>) -> (r: Vec<usize>)
    ensures
        forall|a: int, b: int| 0 <= a < b < r@.len() ==> r@[a] < r@[b],
        forall|i: int| 0 <= i < r@.len() ==> r@[i] < hashes@.len(),
        forall|i: int| 0 <= i < hashes@.len() ==> (r@.contains(i as usize) <==> entry_sealed(
            hashes@,
            evicted@,
            i,
        )),
{
    let mut kept: Vec<usize> = Vec::new();
    let mut seen: Vec<[u8; 32]> = Vec::new();
    let mut i: usize = 0;
    while i < hashes.len()
        invariant
            i <= hashes@.len(),
            forall|a: int, b: int| 0 <= a < b < kept@.len() ==> kept@[a] < kept@[b],
            forall|k: int| 0 <= k < kept@.len() ==> kept@[k] < i,
            forall|m: int| 0 <= m < i ==> (kept@.contains(m as usize) <==> entry_sealed(
                hashes@,
                evicted@,
                m,
            )),
            forall|h: [u8; 32]| seen@.contains(h) <==> exists|j: int|
                0 <= j < i && !evicted@.contains(hashes@[j]) && #[trigger] hashes@[j] == h,
        decreases hashes@.len() - i,
    {
        let h = hashes[i];
        let ghost old_kept = kept@;
        let ghost old_seen = seen@;
        let take = !contains_hash(evicted, &h) && !contains_hash(&seen, &h);
        proof {
            if take {
                assert forall|j: int| 0 <= j < i && !evicted@.contains(hashes@[j]) implies hashes@[j]
                    != hashes@[i as int] by {
                    if hashes@[j] == h {
                        assert(old_seen.contains(h));
                    }
                }
            } else if !evicted@.contains(h) {
                let j = choose|j: int|
                    0 <= j < i && !evicted@.contains(hashes@[j]) && #[trigger] hashes@[j] == h;
                assert(!entry_sealed(hashes@, evicted@, i as int));
            }
        }
        assert(take == entry_sealed(hashes@, evicted@, i as int));
        if take {
            kept.push(i);
            seen.push(h);
        }
        proof {
            assert forall|m: int| 0 <= m < i + 1 implies (kept@.contains(m as usize) <==> entry_sealed(
                hashes@,
                evicted@,
                m,
            )) by {
                if kept@.contains(m as usize) {
                    let k = choose|k: int| 0 <= k < kept@.len() && kept@[k] == m as usize;
                    if k < old_kept.len() {
                        assert(old_kept.contains(m as usize));
                    }
                }
                if m < i && old_kept.contains(m as usize) {
                    let k = choose|k: int| 0 <= k < old_kept.len() && old_kept[k] == m as usize;
                    assert(kept@[k] == m as usize);
                }
                if m == i {
                    if old_kept.contains(i) {
                        let k = choose|k: int| 0 <= k < old_kept.len() && old_kept[k] == i;
                        assert(old_kept[k] < i);
                    }
                    if take {
                        assert(kept@[old_kept.len() as int] == i);
                    }
                }
            }
            assert forall|x: [u8; 32]| seen@.contains(x) <==> exists|j: int|
                0 <= j < i + 1 && !evicted@.contains(hashes@[j]) && #[trigger] hashes@[j] == x by {
                if seen@.contains(x) {
                    let k = choose|k: int| 0 <= k < seen@.len() && seen@[k] == x;
                    if k < old_seen.len() {
                        assert(old_seen.contains(x));
                    } else {
                        assert(hashes@[i as int] == x);
                    }
                }
                if exists|j: int|
                    0 <= j < i + 1 && !evicted@.contains(hashes@[j]) && #[trigger] hashes@[j] == x {
                    let j = choose|j: int|
                        0 <= j < i + 1 && !evicted@.contains(hashes@[j]) && #[trigger] hashes@[j] == x;
                    if j < i {
                        assert(old_seen.contains(x));
                        let k = choose|k: int| 0 <= k < old_seen.len() && old_seen[k] == x;
                        assert(seen@[k] == x);
                    } else if take {
                        assert(seen@[old_seen.len() as int] == x);
                    } else {
                        assert(old_seen.contains(x));
                        let k = choose|k: int| 0 <= k < old_seen.len() && old_seen[k] == x;
                        assert(seen@[k] == x);
                    }
                }
            }
        }
        i = i + 1;
    }
    kept
}

// ---------------------------------------------------------------------------
// The producer of a height
// ---------------------------------------------------------------------------

/// Whether this node produces the height: its instance id (trimmed) is
/// the cluster member at the picked producer index.
pub fn is_local_producer(local_id: &str, members: &Vec<String>, prod_idx: usize) -> (r: bool)
    ensures
        r == (trim(local_id@).len() > 0 && prod_idx < members@.len() && members@[prod_idx as int]@
            == trim(local_id@)),
{
    let id = trim_str(local_id);
    if id.unicode_len() == 0 {
        return false;
    }
    if prod_idx >= members.len() {
        return false;
    }
    crate::text::str_eq(members[prod_idx].as_str(), id)
}

/// A missed height can be skipped only while it is the next one.
pub fn may_skip_missed(tip_h: u64, h: u64) -> (r: bool)
    ensures
        r == (crate::lease_backend::sat_add(tip_h, 1) == h),
{
    (if tip_h == u64::MAX {
        u64::MAX
    } else {
        tip_h + 1
    }) == h
}

/// Diagnosis of a proposer that cannot pick a producer because no
/// validator is active.
#[derive(Clone, Copy, Debug, PartialEq, Eq)]
pub struct ProdPickFatalDiag {
    pub tip_h: u64,
    pub lead_h: u64,
    pub min_stake: u128,
    pub max_val_stake: u128,
    pub val_n: usize,
}

/// Largest stake among the validators whose account exists (0 if none).
pub open spec fn max_stake(stakes: Seq<Option<u128>>) -> u128
    decreases stakes.len(),
{
    if stakes.len() == 0 {
        0
    } else {
        let m = max_stake(stakes.drop_last());
        match stakes.last() {
            Some(s) => if s > m {
                s
            } else {
                m
            },
            None => m,
        }
    }
}

/// The fatal diagnosis, where the pick failed for an empty validator set
/// (`empty_set_err` occurs in the error and no validator is active).
/// `stakes` holds each genesis validator's staked amount, where its account
/// exists.
pub fn pick_fatal_diag(
    err_names_empty_set: bool,
    active_empty: bool,
    tip_h: u64,
    lead_h: u64,
    min_stake: u128,
    stakes: &Vec<Option<u128>>,
) -> (r: Option<ProdPickFatalDiag>)
    ensures
        r is Some <==> (err_names_empty_set && active_empty),
        r matches Some(d) ==> d == (ProdPickFatalDiag {
            tip_h,
            lead_h,
            min_stake,
            max_val_stake: max_stake(stakes@),
            val_n: stakes@.len() as usize,
        }),
{
    if !err_names_empty_set || !active_empty {
        return None;
    }
    let mut m: u128 = 0;
    let mut i: usize = 0;
    while i < stakes.len()
        invariant
            i <= stakes@.len(),
            m == max_stake(stakes@.take(i as int)),
        decreases stakes@.len() - i,
    {
        match stakes[i] {
            Some(s) => if s > m {
                m = s;
            },
            None => {},
        }
        assert(stakes@.take(i + 1).drop_last() =~= stakes@.take(i as int));
        i = i + 1;
    }
    assert(stakes@.take(stakes@.len() as int) =~= stakes@);
    Some(ProdPickFatalDiag { tip_h, lead_h, min_stake, max_val_stake: m, val_n: stakes.len() })
}

} // verus!
