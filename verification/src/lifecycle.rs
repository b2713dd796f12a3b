//! Seal loop decisions: cadence and drift control, deadline grid, gate
//! preflight, cluster quorum gate, suppression accounting and log dedup.
//! The loop that sleeps, reads peers and seals blocks drives these functions.

use crate::handshake::{lists, trimmed_opt, ClusterRole, SealRole};
use crate::lease_backend::sat_add;
use crate::text::{str_eq, trim, trim_str};
use vstd::prelude::*;
use vstd::string::*;

verus! {

pub const AUTOSNAPSHOT_BLOCK_INTERVAL: u64 = 100;
/// Standby sync checkpoint interval (height 1 and then every N blocks).
pub const STANDBY_SYNC_FLUSH_IV: u64 = 100;
pub const SEAL_HOUR_MS: u64 = 3_600_000;
pub const CLUSTER_ATTEST_JITTER_MS: u64 = 500;
pub const SEAL_DRIFT_WINDOW_BLOCKS: u64 = 100;
pub const SEAL_DRIFT_STEP_PPM: u64 = 10_000;
pub const PPM_DENOM: u64 = 1_000_000;
/// ±1% envelope around nominal seal cadence.
pub const SEAL_ENVELOPE_LO_NUM: u64 = 990;
pub const SEAL_ENVELOPE_HI_NUM: u64 = 1010;
pub const SEAL_ENVELOPE_DENOM: u64 = 1000;
/// Deadband on |actual-expected|/expected below which drift adjust is skipped (0.1%).
pub const SEAL_DRIFT_DEADBAND_PPM: u64 = 1_000;
/// Wall-clock window for the proposer seal-loop suppression aggregate.
pub const SEAL_SUPPRESS_WINDOW_SEC: u64 = 100;
/// Poll cadence of the proposer deadline scheduler.
pub const SEAL_POLL_INTERVAL_MS: u64 = 10;
/// Minimum interval between identical CAS-miss warnings in the lease gate.
pub const LEASE_REJECT_WARN_MS: u64 = 5_000;
/// Idle pause when no attester peer is connected and quorum is impossible.
pub const SEAL_WAIT_PEER_MS: u64 = 500;
/// Liveness window for an attester peer record.
pub const ATTESTER_LIVE_WINDOW_MS: u64 = 5_000;
/// Bounded proposer resend attempts after a `got=0` quorum timeout.
pub const CLUSTER_PROP_RETRY_CAP: u8 = 2;

pub open spec fn sat_mul(a: u64, b: u64) -> u64 {
    if a * b > u64::MAX {
        u64::MAX
    } else {
        (a * b) as u64
    }
}

pub open spec fn sat_sub(a: u64, b: u64) -> u64 {
    if a >= b {
        (a - b) as u64
    } else {
        0
    }
}

pub open spec fn max_u64(a: u64, b: u64) -> u64 {
    if a >= b {
        a
    } else {
        b
    }
}

pub open spec fn min_u64(a: u64, b: u64) -> u64 {
    if a <= b {
        a
    } else {
        b
    }
}

pub(crate) fn mul_sat(a: u64, b: u64) -> (r: u64)
    ensures
        r == sat_mul(a, b),
{
    match a.checked_mul(b) {
        Some(v) => v,
        None => u64::MAX,
    }
}

// ---------------------------------------------------------------------------
// Periodic hits and log throttles
// ---------------------------------------------------------------------------

/// Autosnapshot checkpoint heights: every positive multiple of 100.
pub fn autosnap_hit(h: u64) -> (r: bool)
    ensures
        r == (h > 0 && h % 100 == 0),
{
    h > 0 && h % AUTOSNAPSHOT_BLOCK_INTERVAL == 0
}

/// Cluster pending summary heights: every positive multiple of 10.
pub fn cluster_pending_summary_hit(h: u64) -> (r: bool)
    ensures
        r == (h > 0 && h % 10 == 0),
{
    h > 0 && h % 10 == 0
}

/// Renewal log cadence (height 1 and every tenth height), at most once per height.
pub fn lease_renew_log_hit(last_tip: &mut u64, h: u64) -> (r: bool)
    ensures
        r == ((h == 1 || h % 10 == 0) && *old(last_tip) != h),
        *final(last_tip) == if r {
            h
        } else {
            *old(last_tip)
        },
{
    if h != 1 && h % 10 != 0 {
        return false;
    }
    if *last_tip == h {
        return false;
    }
    *last_tip = h;
    true
}

/// Throttle state for repeated lease CAS-miss warnings.
#[derive(Debug, Default)]
pub struct LeaseRejectWarnDedup {
    pub last_reason: Option<String>,
    pub last_warn_ms: u64,
    pub suppressed: u64,
}

impl LeaseRejectWarnDedup {
    /// Returns the number of suppressed duplicates when a warning for `reason`
    /// should be logged now, `None` when it is suppressed.
    pub fn lease_reject_warn_suppressed(&mut self, now_ms: u64, reason: &str) -> (r: Option<u64>)
        ensures
            match old(self).last_reason {
                Some(prev) if prev@ == reason@ => if sat_sub(now_ms, old(self).last_warn_ms)
                    >= LEASE_REJECT_WARN_MS {
                    r == Some(old(self).suppressed) && final(self).last_warn_ms == now_ms
                        && final(self).suppressed == 0 && final(self).last_reason
                        == old(self).last_reason
                } else {
                    r is None && final(self).suppressed == sat_add(old(self).suppressed, 1)
                        && final(self).last_warn_ms == old(self).last_warn_ms
                        && final(self).last_reason == old(self).last_reason
                },
                _ => {
                    &&& r == Some(0u64)
                    &&& final(self).last_reason matches Some(s) && s@ == reason@
                    &&& final(self).last_warn_ms == now_ms
                    &&& final(self).suppressed == 0
                },
            },
    {
        let same = match &self.last_reason {
            Some(prev) => str_eq(prev.as_str(), reason),
            None => false,
        };
        if !same {
            self.last_reason = Some(String::from_str(reason));
            self.last_warn_ms = now_ms;
            self.suppressed = 0;
            return Some(0);
        }
        if now_ms.saturating_sub(self.last_warn_ms) >= LEASE_REJECT_WARN_MS {
            let suppressed = self.suppressed;
            self.last_warn_ms = now_ms;
            self.suppressed = 0;
            return Some(suppressed);
        }
        self.suppressed = self.suppressed.saturating_add(1);
        None
    }
}

// ---------------------------------------------------------------------------
// Cadence
// ---------------------------------------------------------------------------

/// Nominal seal interval for a blocks-per-hour rate (at least 1 ms).
pub fn seal_interval_ms(blocks_per_hour: u64) -> (r: Result<u64, String>)
    ensures
        blocks_per_hour == 0 ==> (r matches Err(m) && m@
            == "genesis blocks_per_hour must be greater than zero"@),
        blocks_per_hour > 0 ==> r == Ok::<u64, String>(
            max_u64((SEAL_HOUR_MS / blocks_per_hour) as u64, 1),
        ),
{
    if blocks_per_hour == 0 {
        return Err(String::from_str("genesis blocks_per_hour must be greater than zero"));
    }
    let v = SEAL_HOUR_MS / blocks_per_hour;
    Ok(
        if v >= 1 {
            v
        } else {
            1
        },
    )
}

/// Quorum timeout: twice the seal interval, and at least interval plus attest jitter.
pub open spec fn cluster_timing_spec(seal_ms: u64) -> u64 {
    let s = max_u64(seal_ms, 1);
    max_u64(sat_mul(s, 2), sat_add(s, CLUSTER_ATTEST_JITTER_MS))
}

pub fn cluster_timing_ms(seal_ms: u64) -> (r: u64)
    ensures
        r == cluster_timing_spec(seal_ms),
{
    let seal_ms = if seal_ms >= 1 {
        seal_ms
    } else {
        1
    };
    let a = mul_sat(seal_ms, 2);
    let b = seal_ms.saturating_add(CLUSTER_ATTEST_JITTER_MS);
    if a >= b {
        a
    } else {
        b
    }
}

/// Heartbeat cadence capped by the seal interval (both at least 1 ms).
pub fn cluster_prop_ms(seal_ms: u64, heartbeat_ms: u64) -> (r: u64)
    ensures
        r == min_u64(max_u64(heartbeat_ms, 1), max_u64(seal_ms, 1)),
{
    let hb = if heartbeat_ms >= 1 {
        heartbeat_ms
    } else {
        1
    };
    let s = if seal_ms >= 1 {
        seal_ms
    } else {
        1
    };
    if hb <= s {
        hb
    } else {
        s
    }
}

/// Derives cluster timing from the genesis block rate: with the cluster
/// enabled, the quorum timeout becomes [`cluster_timing_ms`] and the heartbeat
/// is capped at the seal interval. Returns the seal interval.
pub fn apply_cluster_timing(
    cluster_enabled: bool,
    attest_timeout_ms: &mut u64,
    heartbeat_interval_ms: &mut u64,
    bph: u64,
) -> (r: Result<u64, String>)
    ensures
        bph == 0 ==> r is Err && *final(attest_timeout_ms) == *old(attest_timeout_ms)
            && *final(heartbeat_interval_ms) == *old(heartbeat_interval_ms),
        bph > 0 ==> ({
            let seal = max_u64((SEAL_HOUR_MS / bph) as u64, 1);
            &&& r == Ok::<u64, String>(seal)
            &&& *final(attest_timeout_ms) == if cluster_enabled {
                cluster_timing_spec(seal)
            } else {
                *old(attest_timeout_ms)
            }
            &&& *final(heartbeat_interval_ms) == if cluster_enabled {
                min_u64(max_u64(*old(heartbeat_interval_ms), 1), max_u64(seal, 1))
            } else {
                *old(heartbeat_interval_ms)
            }
        }),
{
    let seal_ms = seal_interval_ms(bph)?;
    if cluster_enabled {
        *attest_timeout_ms = cluster_timing_ms(seal_ms);
        *heartbeat_interval_ms = cluster_prop_ms(seal_ms, *heartbeat_interval_ms);
    }
    Ok(seal_ms)
}

// ---------------------------------------------------------------------------
// Drift control
// ---------------------------------------------------------------------------

/// Largest drift step: 1% of the current cadence (saturating multiply).
pub open spec fn drift_cap(current_ms: u64) -> u64 {
    (sat_mul(current_ms, SEAL_DRIFT_STEP_PPM) / PPM_DENOM) as u64
}

/// Next cadence after one drift step, before any envelope clamp.
pub open spec fn drift_next(current_ms: u64, actual_ms: u64, expected_ms: u64) -> u64 {
    let cap = drift_cap(current_ms);
    if actual_ms > expected_ms {
        max_u64(sat_sub(current_ms, cap), 1)
    } else {
        sat_add(current_ms, cap)
    }
}

/// Signed change of `next` against `current` in parts per million, truncated toward zero.
pub open spec fn drift_ppm(current_ms: u64, next: u64) -> int {
    if next >= current_ms {
        (next - current_ms) * PPM_DENOM / (current_ms as int)
    } else {
        -((current_ms - next) * PPM_DENOM / (current_ms as int))
    }
}

pub open spec fn drift_adjust_spec(current_ms: u64, actual_ms: u64, expected_ms: u64) -> (u64, int) {
    if current_ms <= 1 || expected_ms == 0 || actual_ms == expected_ms {
        (max_u64(current_ms, 1), 0)
    } else if drift_cap(current_ms) == 0 {
        (current_ms, 0)
    } else {
        let next = drift_next(current_ms, actual_ms, expected_ms);
        (next, drift_ppm(current_ms, next))
    }
}

pub(crate) proof fn lemma_ppm_bound(d: u64, cap: u64, current: u64)
    requires
        current > 1,
        d <= cap,
        cap == (sat_mul(current, SEAL_DRIFT_STEP_PPM) / PPM_DENOM) as u64,
    ensures
        (d as int) * 1_000_000 / (current as int) <= 10_000,
{
    assert(cap as int * 1_000_000 <= current as int * 10_000) by (nonlinear_arith)
        requires
            cap as int <= (current as int * 10_000) / 1_000_000,
    {
    }
    assert((d as int) * 1_000_000 <= current as int * 10_000) by (nonlinear_arith)
        requires
            d <= cap,
            cap as int * 1_000_000 <= current as int * 10_000,
    {
    }
    assert((d as int) * 1_000_000 / (current as int) <= 10_000) by (nonlinear_arith)
        requires
            (d as int) * 1_000_000 <= current as int * 10_000,
            current > 1,
    {
    }
}

/// One drift step toward the expected window duration: a slow window (actual
/// above expected) shortens the cadence by up to 1%, a fast one lengthens it;
/// returns the new cadence and the change in ppm.
pub fn seal_drift_adjust_ms(current_ms: u64, actual_ms: u64, expected_ms: u64) -> (r: (u64, i64))
    ensures
        r.0 == drift_adjust_spec(current_ms, actual_ms, expected_ms).0,
        r.1 as int == drift_adjust_spec(current_ms, actual_ms, expected_ms).1,
{
    if current_ms <= 1 || expected_ms == 0 || actual_ms == expected_ms {
        return (
            if current_ms >= 1 {
                current_ms
            } else {
                1
            },
            0,
        );
    }
    let cap = mul_sat(current_ms, SEAL_DRIFT_STEP_PPM) / PPM_DENOM;
    if cap == 0 {
        return (current_ms, 0);
    }
    let next = if actual_ms > expected_ms {
        let n = current_ms.saturating_sub(cap);
        if n >= 1 {
            n
        } else {
            1
        }
    } else {
        current_ms.saturating_add(cap)
    };
    if next >= current_ms {
        let d = next - current_ms;
        proof {
            lemma_ppm_bound(d, cap, current_ms);
        }
        let q = (d as u128) * 1_000_000u128 / (current_ms as u128);
        (next, q as i64)
    } else {
        let d = current_ms - next;
        proof {
            lemma_ppm_bound(d, cap, current_ms);
        }
        let q = (d as u128) * 1_000_000u128 / (current_ms as u128);
        (next, -(q as i64))
    }
}

/// |actual - expected| / expected is below the 0.1% deadband.
pub open spec fn in_deadband(actual_ms: u64, expected_ms: u64) -> bool {
    expected_ms != 0 && sat_mul(
        (max_u64(actual_ms, expected_ms) - min_u64(actual_ms, expected_ms)) as u64,
        PPM_DENOM,
    ) / expected_ms < SEAL_DRIFT_DEADBAND_PPM
}

pub fn seal_drift_in_deadband(actual_ms: u64, expected_ms: u64) -> (r: bool)
    ensures
        r == in_deadband(actual_ms, expected_ms),
{
    if expected_ms == 0 {
        return false;
    }
    let hi = if actual_ms >= expected_ms {
        actual_ms
    } else {
        expected_ms
    };
    let lo = if actual_ms <= expected_ms {
        actual_ms
    } else {
        expected_ms
    };
    let diff = hi - lo;
    mul_sat(diff, PPM_DENOM) / expected_ms < SEAL_DRIFT_DEADBAND_PPM
}

/// Envelope floor: 99% of nominal (saturating), at least 1 ms.
pub open spec fn envelope_lo(nominal_ms: u64) -> u64 {
    max_u64((sat_mul(nominal_ms, SEAL_ENVELOPE_LO_NUM) / SEAL_ENVELOPE_DENOM) as u64, 1)
}

/// Envelope ceiling: 101% of nominal (saturating).
pub open spec fn envelope_hi(nominal_ms: u64) -> u64 {
    (sat_mul(nominal_ms, SEAL_ENVELOPE_HI_NUM) / SEAL_ENVELOPE_DENOM) as u64
}

pub open spec fn clamp_envelope_spec(nominal_ms: u64, effective_ms: u64) -> (u64, bool) {
    if nominal_ms == 0 {
        (max_u64(effective_ms, 1), false)
    } else if effective_ms < envelope_lo(nominal_ms) {
        (envelope_lo(nominal_ms), true)
    } else if effective_ms > envelope_hi(nominal_ms) {
        (envelope_hi(nominal_ms), true)
    } else {
        (effective_ms, false)
    }
}

/// Clamps the effective cadence to the ±1% envelope around nominal; the flag
/// tells whether the clamp moved it.
pub fn seal_drift_clamp_envelope(nominal_ms: u64, effective_ms: u64) -> (r: (u64, bool))
    ensures
        r == clamp_envelope_spec(nominal_ms, effective_ms),
{
    if nominal_ms == 0 {
        return (
            if effective_ms >= 1 {
                effective_ms
            } else {
                1
            },
            false,
        );
    }
    let lo = mul_sat(nominal_ms, SEAL_ENVELOPE_LO_NUM) / SEAL_ENVELOPE_DENOM;
    let hi = mul_sat(nominal_ms, SEAL_ENVELOPE_HI_NUM) / SEAL_ENVELOPE_DENOM;
    let lo = if lo >= 1 {
        lo
    } else {
        1
    };
    if effective_ms < lo {
        (lo, true)
    } else if effective_ms > hi {
        (hi, true)
    } else {
        (effective_ms, false)
    }
}

/// The envelope is never empty, and a clamped cadence always lies inside it;
/// clamping an already clamped cadence changes nothing.
pub proof fn lemma_envelope_clamp_in_bounds(nominal_ms: u64, effective_ms: u64)
    requires
        nominal_ms > 0,
    ensures
        envelope_lo(nominal_ms) <= envelope_hi(nominal_ms),
        envelope_lo(nominal_ms) <= clamp_envelope_spec(nominal_ms, effective_ms).0 <= envelope_hi(
            nominal_ms,
        ),
        clamp_envelope_spec(nominal_ms, clamp_envelope_spec(nominal_ms, effective_ms).0) == (
            clamp_envelope_spec(nominal_ms, effective_ms).0,
            false,
        ),
{
    let n = nominal_ms as int;
    assert(n * 990 <= n * 1010) by (nonlinear_arith)
        requires
            n >= 1,
    ;
    assert(n * 1010 >= 1000) by (nonlinear_arith)
        requires
            n >= 1,
    ;
    assert(sat_mul(nominal_ms, 990) <= sat_mul(nominal_ms, 1010));
    assert(sat_mul(nominal_ms, 1010) >= 1000);
    assert(sat_mul(nominal_ms, 990) / 1000 <= sat_mul(nominal_ms, 1010) / 1000) by (
    nonlinear_arith)
        requires
            sat_mul(nominal_ms, 990) <= sat_mul(nominal_ms, 1010),
    ;
    assert(sat_mul(nominal_ms, 1010) / 1000 >= 1) by (nonlinear_arith)
        requires
            sat_mul(nominal_ms, 1010) >= 1000,
    ;
}

// ---------------------------------------------------------------------------
// Deadline grid and polling
// ---------------------------------------------------------------------------

/// First multiple of the nominal interval (at least 1) strictly after `now_ms` (saturating).
pub open spec fn align_next_spec(now_ms: u64, nominal_ms: u64) -> u64 {
    let n = max_u64(nominal_ms, 1);
    sat_mul(sat_add((now_ms / n) as u64, 1), n)
}

pub fn align_next_seal_ms(now_ms: u64, nominal_ms: u64) -> (r: u64)
    ensures
        r == align_next_spec(now_ms, nominal_ms),
{
    let nominal = if nominal_ms >= 1 {
        nominal_ms
    } else {
        1
    };
    let bucket = now_ms / nominal;
    mul_sat(bucket.saturating_add(1), nominal)
}

/// Away from `u64` saturation the aligned deadline is a grid point strictly
/// after `now_ms` and at most one interval away.
pub proof fn lemma_align_next_on_grid(now_ms: u64, nominal_ms: u64)
    requires
        nominal_ms > 0,
        now_ms as int + nominal_ms as int <= u64::MAX,
    ensures
        align_next_spec(now_ms, nominal_ms) > now_ms,
        align_next_spec(now_ms, nominal_ms) - now_ms <= nominal_ms,
        align_next_spec(now_ms, nominal_ms) % nominal_ms == 0,
{
    let n = nominal_ms as int;
    let q = now_ms as int / n;
    assert(q * n <= (now_ms as int) && (now_ms as int) < q * n + n) by (nonlinear_arith)
        requires
            n > 0,
            q == now_ms as int / n,
            now_ms >= 0,
    ;
    assert((q + 1) * n == q * n + n) by (nonlinear_arith);
    assert((q + 1) * n <= u64::MAX);
    assert(((q + 1) * n) % n == 0) by (nonlinear_arith)
        requires
            n > 0,
    ;
}

/// Wall clock has reached the scheduled deadline.
pub fn should_attempt_seal(now_ms: u64, deadline_ms: u64) -> (r: bool)
    ensures
        r == (now_ms >= deadline_ms),
{
    now_ms >= deadline_ms
}

/// Proposer ahead-trigger: once per deadline, inside `[deadline - ahead, deadline)`.
pub fn should_fire_seal_ahead(
    now_ms: u64,
    next_seal_time_ms: u64,
    ahead_ms: u64,
    fired_for_deadline: Option<u64>,
) -> (r: bool)
    ensures
        r == (ahead_ms != 0 && fired_for_deadline != Some(next_seal_time_ms) && now_ms >= sat_sub(
            next_seal_time_ms,
            ahead_ms,
        ) && now_ms < next_seal_time_ms),
{
    if ahead_ms == 0 {
        return false;
    }
    match fired_for_deadline {
        Some(d) => {
            if d == next_seal_time_ms {
                return false;
            }
        },
        None => {},
    }
    let trigger_at = next_seal_time_ms.saturating_sub(ahead_ms);
    now_ms >= trigger_at && now_ms < next_seal_time_ms
}

/// Sleep until the next deadline check: the remaining gap capped at the poll
/// interval, the poll interval once the deadline passed, never zero.
pub fn poll_sleep_ms(now_ms: u64, deadline_ms: u64, poll_ms: u64) -> (r: u64)
    ensures
        r == if now_ms >= deadline_ms {
            max_u64(poll_ms, 1)
        } else {
            max_u64(min_u64((deadline_ms - now_ms) as u64, max_u64(poll_ms, 1)), 1)
        },
        1 <= r <= max_u64(poll_ms, 1),
{
    let poll = if poll_ms >= 1 {
        poll_ms
    } else {
        1
    };
    if now_ms >= deadline_ms {
        return poll;
    }
    let remain = deadline_ms - now_ms;
    let m = if remain <= poll {
        remain
    } else {
        poll
    };
    if m >= 1 {
        m
    } else {
        1
    }
}

/// A second quorum probe runs only for a proposer whose first probe failed.
pub fn gate_recheck_needed(is_prop: bool, gate_ok: bool) -> (r: bool)
    ensures
        r == (is_prop && !gate_ok),
{
    is_prop && !gate_ok
}

pub open spec fn attester_alive_spec(connected: bool, last_seen_ms: u64, now_ms: u64, live_window_ms: u64) -> bool {
    connected && last_seen_ms != 0 && sat_sub(now_ms, last_seen_ms) <= live_window_ms
}

/// A connected attester seen (at a non-zero time) within the live window.
pub fn attester_alive(connected: bool, last_seen_ms: u64, now_ms: u64, live_window_ms: u64) -> (r:
    bool)
    ensures
        r == attester_alive_spec(connected, last_seen_ms, now_ms, live_window_ms),
{
    if !connected {
        return false;
    }
    if last_seen_ms == 0 {
        return false;
    }
    now_ms.saturating_sub(last_seen_ms) <= live_window_ms
}

/// Cluster proposer preflight decision before the propose tick and cluster gate.
#[derive(Debug, Clone, Copy, PartialEq, Eq, Structural)]
pub enum SealPreflight {
    /// Quorum is reachable: continue into propose tick and cluster gate.
    Ready,
    /// Not enough live attesters: skip propose and gate work.
    WaitingAttester,
}

/// Ready when the cluster is disabled or enough live attesters meet `quorum_k`.
pub fn cluster_seal_preflight(cluster_enabled: bool, live_attesters: u8, quorum_k: u8) -> (r:
    SealPreflight)
    ensures
        r == if !cluster_enabled || live_attesters >= quorum_k {
            SealPreflight::Ready
        } else {
            SealPreflight::WaitingAttester
        },
{
    if !cluster_enabled {
        return SealPreflight::Ready;
    }
    if live_attesters >= quorum_k {
        SealPreflight::Ready
    } else {
        SealPreflight::WaitingAttester
    }
}

/// Seal role from configuration: an explicit override wins, then attesters
/// and nodes with the seal loop disabled stand by, everyone else seals.
pub fn derive_seal_role(
    seal_role_override: Option<SealRole>,
    cluster_enabled: bool,
    cluster_role: ClusterRole,
    debug_disable_seal_loop: bool,
) -> (r: SealRole)
    ensures
        r == match seal_role_override {
            Some(role) => role,
            None => if (cluster_enabled && cluster_role == ClusterRole::Attester)
                || debug_disable_seal_loop {
                SealRole::Standby
            } else {
                SealRole::Active
            },
        },
{
    if let Some(role) = seal_role_override {
        return role;
    }
    if cluster_enabled && matches!(cluster_role, ClusterRole::Attester) {
        return SealRole::Standby;
    }
    if debug_disable_seal_loop {
        SealRole::Standby
    } else {
        SealRole::Active
    }
}

// ---------------------------------------------------------------------------
// Live and sync-ready attesters
// ---------------------------------------------------------------------------

/// Link state of a peer session: whether its status counts as live
/// (connected or retrying) and when it was last heard from.
#[derive(Clone, Copy, Debug)]
pub struct PeerLink {
    pub liveish: bool,
    pub last_seen_ms: u64,
}

/// Sync progress reported by a peer.
#[derive(Clone, Copy, Debug, Default)]
pub struct PeerSyncObs {
    pub tip_h: u64,
    pub fork_h: Option<u64>,
    pub fork_n: u64,
}

/// What the handshake state knows of one trusted peer.
#[derive(Clone, Debug)]
pub struct AttesterObs {
    pub cluster_attest_enabled: bool,
    pub cluster_role: ClusterRole,
    pub instance_id: Option<String>,
    pub link: Option<PeerLink>,
    pub sync: Option<PeerSyncObs>,
}

#[derive(Clone, Copy, Debug)]
pub struct AttSyncCtx {
    pub now_ms: u64,
    pub local_h: u64,
}

#[derive(Clone, Copy, Debug, Default, PartialEq, Eq, Structural)]
pub struct AttSyncRes {
    pub live_n: u8,
    pub sync_n: u8,
    pub local_h: u64,
    pub peer_tip_max: u64,
}

pub open spec fn sat_inc8(x: u8) -> u8 {
    if x == u8::MAX {
        x
    } else {
        (x + 1) as u8
    }
}

/// Some configured member, trimmed, equals `id`.
pub open spec fn member_listed(members: Seq<String>, id: Seq<char>) -> bool {
    exists|i: int| 0 <= i < members.len() && trim((#[trigger] members[i])@) == id
}

/// A trusted peer counts as a live attester: cluster attestation on, in the
/// attester role, its trimmed instance id a configured member other than
/// the local one, and heard from within the live window.
pub open spec fn att_live(o: AttesterObs, members: Seq<String>, local: Seq<char>, ctx: AttSyncCtx) -> bool {
    &&& o.cluster_attest_enabled
    &&& o.cluster_role == ClusterRole::Attester
    &&& trimmed_opt(o.instance_id) matches Some(mid)
    &&& !(local.len() > 0 && mid == local)
    &&& member_listed(members, mid)
    &&& o.link matches Some(l)
    &&& attester_alive_spec(l.liveish, l.last_seen_ms, ctx.now_ms, ATTESTER_LIVE_WINDOW_MS)
}

/// A live attester is sync-ready unless it reports a fork lock: a fork at
/// the next height seen at least three times.
pub open spec fn att_sync_ready(
    o: AttesterObs,
    members: Seq<String>,
    local: Seq<char>,
    ctx: AttSyncCtx,
) -> bool {
    &&& att_live(o, members, local, ctx)
    &&& match o.sync {
        None => true,
        Some(sy) => !(sy.fork_h == Some(sat_add(ctx.local_h, 1)) && sy.fork_n >= 3),
    }
}

/// Tip a peer reports, 0 when it reports none.
pub open spec fn att_tip(o: AttesterObs) -> u64 {
    match o.sync {
        Some(sy) => sy.tip_h,
        None => 0,
    }
}

/// The live attesters among `obs`, in order.
pub open spec fn live_peers(
    obs: Seq<AttesterObs>,
    members: Seq<String>,
    local: Seq<char>,
    ctx: AttSyncCtx,
) -> Seq<AttesterObs> {
    obs.filter(|o: AttesterObs| att_live(o, members, local, ctx))
}

/// The sync-ready attesters among `obs`, in order.
pub open spec fn ready_peers(
    obs: Seq<AttesterObs>,
    members: Seq<String>,
    local: Seq<char>,
    ctx: AttSyncCtx,
) -> Seq<AttesterObs> {
    obs.filter(|o: AttesterObs| att_sync_ready(o, members, local, ctx))
}

/// `n`, saturated at `u8::MAX`.
pub open spec fn cap8(n: nat) -> u8 {
    if n > 255 {
        255
    } else {
        n as u8
    }
}

proof fn lemma_peers_push(
    obs: Seq<AttesterObs>,
    o: AttesterObs,
    members: Seq<String>,
    local: Seq<char>,
    ctx: AttSyncCtx,
)
    ensures
        live_peers(obs.push(o), members, local, ctx) == if att_live(o, members, local, ctx) {
            live_peers(obs, members, local, ctx).push(o)
        } else {
            live_peers(obs, members, local, ctx)
        },
        ready_peers(obs.push(o), members, local, ctx) == if att_sync_ready(o, members, local, ctx) {
            ready_peers(obs, members, local, ctx).push(o)
        } else {
            ready_peers(obs, members, local, ctx)
        },
{
    reveal(Seq::filter);
    assert(obs.push(o).drop_last() =~= obs);
}

fn member_in_cfg(member_id: &str, members: &Vec<String>) -> (r: bool)
    ensures
        r == member_listed(members@, member_id@),
{
    let mut i: usize = 0;
    while i < members.len()
        invariant
            i <= members@.len(),
            forall|k: int| 0 <= k < i ==> trim((#[trigger] members@[k])@) != member_id@,
        decreases members@.len() - i,
    {
        if str_eq(trim_str(members[i].as_str()), member_id) {
            return true;
        }
        i = i + 1;
    }
    false
}

fn inc8(x: u8) -> (r: u8)
    ensures
        r == sat_inc8(x),
{
    if x == u8::MAX {
        x
    } else {
        x + 1
    }
}

fn att_step_exec(
    acc: AttSyncRes,
    o: &AttesterObs,
    members: &Vec<String>,
    local: &str,
    ctx: AttSyncCtx,
) -> (r: AttSyncRes)
    ensures
        r.live_n == if att_live(*o, members@, local@, ctx) {
            sat_inc8(acc.live_n)
        } else {
            acc.live_n
        },
        r.sync_n == if att_sync_ready(*o, members@, local@, ctx) {
            sat_inc8(acc.sync_n)
        } else {
            acc.sync_n
        },
        r.local_h == acc.local_h,
        r.peer_tip_max == if att_live(*o, members@, local@, ctx) && att_tip(*o)
            > acc.peer_tip_max {
            att_tip(*o)
        } else {
            acc.peer_tip_max
        },
{
    if !o.cluster_attest_enabled || !matches!(o.cluster_role, ClusterRole::Attester) {
        return acc;
    }
    let mid = match &o.instance_id {
        Some(s) => {
            let t = trim_str(s.as_str());
            if t.unicode_len() == 0 {
                return acc;
            }
            t
        },
        None => {
            return acc;
        },
    };
    if local.unicode_len() > 0 && str_eq(mid, local) {
        return acc;
    }
    if !member_in_cfg(mid, members) {
        return acc;
    }
    let link = match o.link {
        Some(l) => l,
        None => {
            return acc;
        },
    };
    if !attester_alive(link.liveish, link.last_seen_ms, ctx.now_ms, ATTESTER_LIVE_WINDOW_MS) {
        return acc;
    }
    let mut out = AttSyncRes { live_n: inc8(acc.live_n), ..acc };
    match o.sync {
        None => {
            out.sync_n = inc8(out.sync_n);
            out
        },
        Some(sy) => {
            if sy.tip_h > 0 {
                out.peer_tip_max = if out.peer_tip_max >= sy.tip_h {
                    out.peer_tip_max
                } else {
                    sy.tip_h
                };
            }
            let fork_lock = match sy.fork_h {
                Some(fh) => fh == ctx.local_h.saturating_add(1) && sy.fork_n >= 3,
                None => false,
            };
            if !fork_lock {
                out.sync_n = inc8(out.sync_n);
            }
            out
        },
    }
}

/// Counts live and sync-ready cluster attesters among the trusted peers
/// (each count saturating at 255), and the highest tip a live attester
/// reports (0 when none does).
pub fn count_sync_ready_hs(
    peers: &Vec<AttesterObs>,
    members: &Vec<String>,
    local_member_id: &str,
    ctx: AttSyncCtx,
) -> (r: AttSyncRes)
    ensures
        r.live_n == cap8(live_peers(peers@, members@, trim(local_member_id@), ctx).len()),
        r.sync_n == cap8(ready_peers(peers@, members@, trim(local_member_id@), ctx).len()),
        r.local_h == ctx.local_h,
        forall|i: int|
            0 <= i < peers@.len() && att_live(#[trigger] peers@[i], members@, trim(local_member_id@), ctx)
                ==> att_tip(peers@[i]) <= r.peer_tip_max,
        r.peer_tip_max == 0 || exists|i: int|
            0 <= i < peers@.len() && att_live(#[trigger] peers@[i], members@, trim(local_member_id@), ctx)
                && att_tip(peers@[i]) == r.peer_tip_max,
{
    let local = trim_str(local_member_id);
    let ghost lv = local@;
    let ghost ms = members@;
    let mut out = AttSyncRes { live_n: 0, sync_n: 0, local_h: ctx.local_h, peer_tip_max: 0 };
    let mut i: usize = 0;
    proof {
        reveal(Seq::filter);
        assert(peers@.take(0) =~= Seq::<AttesterObs>::empty());
    }
    while i < peers.len()
        invariant
            i <= peers@.len(),
            lv == local@,
            lv == trim(local_member_id@),
            ms == members@,
            out.live_n == cap8(live_peers(peers@.take(i as int), ms, lv, ctx).len()),
            out.sync_n == cap8(ready_peers(peers@.take(i as int), ms, lv, ctx).len()),
            out.local_h == ctx.local_h,
            forall|k: int|
                0 <= k < i && att_live(#[trigger] peers@[k], ms, lv, ctx) ==> att_tip(peers@[k])
                    <= out.peer_tip_max,
            out.peer_tip_max == 0 || exists|k: int|
                0 <= k < i && att_live(#[trigger] peers@[k], ms, lv, ctx) && att_tip(peers@[k])
                    == out.peer_tip_max,
        decreases peers@.len() - i,
    {
        proof {
            assert(peers@.take(i + 1) =~= peers@.take(i as int).push(peers@[i as int]));
            lemma_peers_push(peers@.take(i as int), peers@[i as int], ms, lv, ctx);
        }
        let ghost prev = out;
        out = att_step_exec(out, &peers[i], members, local, ctx);
        proof {
            if out.peer_tip_max != prev.peer_tip_max {
                assert(att_live(peers@[i as int], ms, lv, ctx) && att_tip(peers@[i as int])
                    == out.peer_tip_max);
            }
        }
        i = i + 1;
    }
    assert(peers@.take(peers@.len() as int) =~= peers@);
    out
}

// ---------------------------------------------------------------------------
// Cluster quorum gate
// ---------------------------------------------------------------------------

/// The proposal round state a quorum check inspects (height `tip+1`, round 0).
#[derive(Clone, Debug)]
pub struct RoundObs {
    pub vote_object: String,
    pub candidate_hash: String,
    pub proposer_id: Option<String>,
    /// Member ids that acknowledged the proposal; a repeated id counts once.
    pub attesters: Vec<String>,
    pub propose_opened_at_ms: Option<u64>,
}

/// Outcome of the cluster gate for the next height.
#[derive(Clone, Copy, Debug, PartialEq, Eq, Structural)]
pub enum ClusterGateVerdict {
    /// Enough attestations: sealing may proceed.
    Open,
    /// No round state for the next height yet.
    MissingRound,
    /// Vote object or candidate hash missing.
    IncompleteBinding { vote_ok: bool, cand_ok: bool },
    /// The proposer is not a configured member.
    ProposerNotMember,
    /// Too few attestations after the attest timeout.
    QuorumTimeout { got: u8, elapsed_ms: u64 },
    /// Too few attestations, still inside the attest timeout.
    QuorumPending { got: u8 },
}

#[derive(Debug, Clone, Copy, PartialEq, Eq, Structural)]
pub enum GateBlock {
    Wait,
    Timeout,
}

/// An acknowledging id that counts towards the quorum: a configured member
/// other than the proposer.
pub open spec fn ack_counts(id: Seq<char>, proposer: Seq<char>, members: Seq<String>) -> bool {
    id != proposer && lists(members, id)
}

/// The distinct ids among `att` that count towards the quorum.
pub open spec fn ack_ids(att: Seq<String>, proposer: Seq<char>, members: Seq<String>) -> Set<
    Seq<char>,
> {
    Set::new(
        |id: Seq<char>|
            ack_counts(id, proposer, members) && exists|i: int|
                0 <= i < att.len() && (#[trigger] att[i])@ == id,
    )
}

/// Proposer id a quorum check reads: empty when the round names none.
pub open spec fn round_proposer(round: RoundObs) -> Seq<char> {
    match round.proposer_id {
        Some(p) => p@,
        None => Seq::<char>::empty(),
    }
}

/// Number of distinct acknowledging members, as a quorum check reads it
/// (truncated to `u8`).
pub open spec fn acks(round: RoundObs, members: Seq<String>) -> u8 {
    (ack_ids(round.attesters@, round_proposer(round), members).len() % 256) as u8
}

proof fn lemma_ack_ids_push(att: Seq<String>, a: String, proposer: Seq<char>, members: Seq<String>)
    requires
        ack_ids(att, proposer, members).finite(),
    ensures
        ack_ids(att.push(a), proposer, members) == if ack_counts(a@, proposer, members) {
            ack_ids(att, proposer, members).insert(a@)
        } else {
            ack_ids(att, proposer, members)
        },
        ack_ids(att.push(a), proposer, members).finite(),
{
    let old_ids = ack_ids(att, proposer, members);
    let new_ids = ack_ids(att.push(a), proposer, members);
    let n = att.push(a);
    let want = if ack_counts(a@, proposer, members) {
        old_ids.insert(a@)
    } else {
        old_ids
    };
    assert forall|id: Seq<char>| new_ids.contains(id) == want.contains(id) by {
        if new_ids.contains(id) {
            let k = choose|k: int| 0 <= k < n.len() && (#[trigger] n[k])@ == id;
            if k < att.len() {
                assert(n[k] == att[k]);
            }
        }
        if old_ids.contains(id) {
            let k = choose|k: int| 0 <= k < att.len() && (#[trigger] att[k])@ == id;
            assert(n[k] == att[k]);
        }
        if ack_counts(a@, proposer, members) && id == a@ {
            assert(n[att.len() as int] == a);
        }
    }
    assert(new_ids =~= want);
}

pub open spec fn gate_verdict_spec(
    round: Option<RoundObs>,
    members: Seq<String>,
    quorum_k: u8,
    attest_timeout_ms: u64,
    now_ms: u64,
) -> ClusterGateVerdict {
    match round {
        None => ClusterGateVerdict::MissingRound,
        Some(st) => {
            let vote_ok = !crate::text::is_blank(st.vote_object@);
            let cand_ok = !crate::text::is_blank(st.candidate_hash@);
            if !vote_ok || !cand_ok {
                ClusterGateVerdict::IncompleteBinding { vote_ok, cand_ok }
            } else if !(st.proposer_id matches Some(p) && lists(members, p@)) {
                ClusterGateVerdict::ProposerNotMember
            } else {
                let got = acks(st, members);
                if got >= quorum_k {
                    ClusterGateVerdict::Open
                } else {
                    match st.propose_opened_at_ms {
                        Some(t0) => if sat_sub(now_ms, t0) > attest_timeout_ms {
                            ClusterGateVerdict::QuorumTimeout { got, elapsed_ms: sat_sub(now_ms, t0) }
                        } else {
                            ClusterGateVerdict::QuorumPending { got }
                        },
                        None => ClusterGateVerdict::QuorumPending { got },
                    }
                }
            }
        },
    }
}

fn list_has_exact(v: &Vec<String>, name: &str) -> (r: bool)
    ensures
        r == lists(v@, name@),
{
    let mut i: usize = 0;
    while i < v.len()
        invariant
            i <= v@.len(),
            forall|k: int| 0 <= k < i ==> (#[trigger] v@[k])@ != name@,
        decreases v@.len() - i,
    {
        if str_eq(v[i].as_str(), name) {
            return true;
        }
        i = i + 1;
    }
    false
}

/// Whether `id` occurs among the first `upto` entries of `v`.
fn seen_before(v: &Vec<String>, upto: usize, id: &str) -> (r: bool)
    requires
        upto <= v@.len(),
    ensures
        r == exists|k: int| 0 <= k < upto && (#[trigger] v@[k])@ == id@,
{
    let mut j: usize = 0;
    while j < upto
        invariant
            j <= upto <= v@.len(),
            forall|k: int| 0 <= k < j ==> (#[trigger] v@[k])@ != id@,
        decreases upto - j,
    {
        if str_eq(v[j].as_str(), id) {
            return true;
        }
        j = j + 1;
    }
    false
}

fn count_acks(round: &RoundObs, members: &Vec<String>) -> (r: u8)
    ensures
        r == acks(*round, members@),
{
    let proposer: &str = match &round.proposer_id {
        Some(p) => p.as_str(),
        None => "",
    };
    proof {
        reveal_strlit("");
    }
    let ghost pv = round_proposer(*round);
    assert(proposer@ == pv);
    let mut n: u8 = 0;
    let mut i: usize = 0;
    let ghost att = round.attesters@;
    proof {
        assert(ack_ids(att.take(0), pv, members@) =~= Set::<Seq<char>>::empty());
    }
    while i < round.attesters.len()
        invariant
            i <= att.len(),
            att == round.attesters@,
            proposer@ == pv,
            ack_ids(att.take(i as int), pv, members@).finite(),
            n as nat == ack_ids(att.take(i as int), pv, members@).len() % 256,
        decreases att.len() - i,
    {
        let ghost prev = att.take(i as int);
        proof {
            assert(att.take(i + 1) =~= prev.push(att[i as int]));
            lemma_ack_ids_push(prev, att[i as int], pv, members@);
        }
        let id = round.attesters[i].as_str();
        if !str_eq(id, proposer) && list_has_exact(members, id) && !seen_before(
            &round.attesters,
            i,
            id,
        ) {
            proof {
                if ack_ids(prev, pv, members@).contains(id@) {
                    let k = choose|k: int| 0 <= k < prev.len() && (#[trigger] prev[k])@ == id@;
                    assert(att[k] == prev[k]);
                }
            }
            n = if n == u8::MAX {
                0
            } else {
                n + 1
            };
        } else {
            proof {
                if ack_counts(id@, pv, members@) {
                    let k = choose|k: int| 0 <= k < i && (#[trigger] att[k])@ == id@;
                    assert(prev[k] == att[k]);
                    assert(ack_ids(prev, pv, members@).contains(id@));
                }
            }
        }
        i = i + 1;
    }
    assert(att.take(att.len() as int) =~= att);
    n
}

/// Decides whether the cluster gate lets the proposer seal the next height.
pub fn cluster_gate_verdict(
    round: Option<&RoundObs>,
    members: &Vec<String>,
    quorum_k: u8,
    attest_timeout_ms: u64,
    now_ms: u64,
) -> (r: ClusterGateVerdict)
    ensures
        r == gate_verdict_spec(
            match round {
                Some(x) => Some(*x),
                None => None,
            },
            members@,
            quorum_k,
            attest_timeout_ms,
            now_ms,
        ),
{
    let st = match round {
        None => {
            return ClusterGateVerdict::MissingRound;
        },
        Some(st) => st,
    };
    let vote_ok = !crate::text::str_is_blank(st.vote_object.as_str());
    let cand_ok = !crate::text::str_is_blank(st.candidate_hash.as_str());
    if !vote_ok || !cand_ok {
        return ClusterGateVerdict::IncompleteBinding { vote_ok, cand_ok };
    }
    let proposer_ok = match &st.proposer_id {
        Some(p) => list_has_exact(members, p.as_str()),
        None => false,
    };
    if !proposer_ok {
        return ClusterGateVerdict::ProposerNotMember;
    }
    let got = count_acks(st, members);
    if got >= quorum_k {
        return ClusterGateVerdict::Open;
    }
    match st.propose_opened_at_ms {
        Some(t0) => {
            let elapsed = now_ms.saturating_sub(t0);
            if elapsed > attest_timeout_ms {
                ClusterGateVerdict::QuorumTimeout { got, elapsed_ms: elapsed }
            } else {
                ClusterGateVerdict::QuorumPending { got }
            }
        },
        None => ClusterGateVerdict::QuorumPending { got },
    }
}

/// Gate observation for a cluster proposer: nothing to report once quorum
/// is met (or when not a proposer); a timeout once the attest window passed;
/// a wait otherwise (including a missing round).
pub fn gate_obs(
    cluster_enabled: bool,
    role: ClusterRole,
    round: Option<&RoundObs>,
    members: &Vec<String>,
    quorum_k: u8,
    attest_timeout_ms: u64,
    now_ms: u64,
) -> (r: Option<GateBlock>)
    ensures
        r == if !cluster_enabled || role != ClusterRole::Proposer {
            None
        } else {
            match round {
                None => Some(GateBlock::Wait),
                Some(st) => if acks(*st, members@) >= quorum_k {
                    None
                } else if st.propose_opened_at_ms matches Some(t0) && sat_sub(now_ms, t0)
                    > attest_timeout_ms {
                    Some(GateBlock::Timeout)
                } else {
                    Some(GateBlock::Wait)
                },
            }
        },
{
    if !cluster_enabled || !matches!(role, ClusterRole::Proposer) {
        return None;
    }
    let st = match round {
        None => {
            return Some(GateBlock::Wait);
        },
        Some(st) => st,
    };
    let got = count_acks(st, members);
    if got >= quorum_k {
        return None;
    }
    if let Some(t0) = st.propose_opened_at_ms {
        if now_ms.saturating_sub(t0) > attest_timeout_ms {
            return Some(GateBlock::Timeout);
        }
    }
    Some(GateBlock::Wait)
}

/// Sealing through cluster attestation requires quorum: it opens only
/// with at least `quorum_k` acknowledgements from members other than the
/// proposer, a complete binding, and a member proposer.
pub proof fn lemma_gate_open_needs_quorum(
    round: Option<RoundObs>,
    members: Seq<String>,
    quorum_k: u8,
    attest_timeout_ms: u64,
    now_ms: u64,
)
    requires
        gate_verdict_spec(round, members, quorum_k, attest_timeout_ms, now_ms)
            == ClusterGateVerdict::Open,
    ensures
        round matches Some(st) && (acks(st, members) >= quorum_k && (st.proposer_id matches Some(
            p,
        ) && lists(members, p@)) && !crate::text::is_blank(st.vote_object@)
            && !crate::text::is_blank(st.candidate_hash@)),
{
}

// ---------------------------------------------------------------------------
// Suppression accounting and log dedup
// ---------------------------------------------------------------------------

/// Reason the last seal slot was suppressed.
#[derive(Debug, Clone, Copy, PartialEq, Eq, Structural)]
pub enum SuppressReason {
    LeaseFence,
    ClusterGate,
    SlotSkipped,
}

impl SuppressReason {
    pub fn as_tag(self) -> (r: &'static str)
        ensures
            r@ == match self {
                SuppressReason::LeaseFence => "lease_fence"@,
                SuppressReason::ClusterGate => "cluster_gate"@,
                SuppressReason::SlotSkipped => "slot_skipped"@,
            },
    {
        match self {
            SuppressReason::LeaseFence => "lease_fence",
            SuppressReason::ClusterGate => "cluster_gate",
            SuppressReason::SlotSkipped => "slot_skipped",
        }
    }
}

/// One-shot operator logs for cluster gate outcomes, per seal target height.
#[derive(Debug, Clone, Copy)]
pub struct ClusterGateDedup {
    pub missing_round_h: Option<u64>,
    pub invalid_binding_h: Option<u64>,
    pub invalid_proposer_h: Option<u64>,
    pub quorum_wait_h: Option<u64>,
    pub quorum_timeout_h: Option<u64>,
    pub waiting_sync_h: Option<u64>,
}

impl Default for ClusterGateDedup {
    fn default() -> (r: Self)
        ensures
            r.missing_round_h is None && r.invalid_binding_h is None && r.invalid_proposer_h is None
                && r.quorum_wait_h is None && r.quorum_timeout_h is None && r.waiting_sync_h is None,
    {
        ClusterGateDedup {
            missing_round_h: None,
            invalid_binding_h: None,
            invalid_proposer_h: None,
            quorum_wait_h: None,
            quorum_timeout_h: None,
            waiting_sync_h: None,
        }
    }
}

/// Claims height `h` in a dedup slot: true the first time for that height.
fn claim(slot: &mut Option<u64>, h: u64) -> (r: bool)
    ensures
        r == (*old(slot) != Some(h)),
        *final(slot) == Some(h),
{
    match *slot {
        Some(x) => {
            if x == h {
                return false;
            }
        },
        None => {},
    }
    *slot = Some(h);
    true
}

impl ClusterGateDedup {
    pub fn should_log_missing_round(&mut self, h: u64) -> (r: bool)
        ensures
            r == (old(self).missing_round_h != Some(h)),
            *final(self) == (ClusterGateDedup { missing_round_h: Some(h), ..*old(self) }),
    {
        claim(&mut self.missing_round_h, h)
    }

    pub fn should_log_invalid_binding(&mut self, h: u64) -> (r: bool)
        ensures
            r == (old(self).invalid_binding_h != Some(h)),
            *final(self) == (ClusterGateDedup { invalid_binding_h: Some(h), ..*old(self) }),
    {
        claim(&mut self.invalid_binding_h, h)
    }

    pub fn should_log_invalid_proposer(&mut self, h: u64) -> (r: bool)
        ensures
            r == (old(self).invalid_proposer_h != Some(h)),
            *final(self) == (ClusterGateDedup { invalid_proposer_h: Some(h), ..*old(self) }),
    {
        claim(&mut self.invalid_proposer_h, h)
    }

    pub fn should_log_quorum_timeout(&mut self, h: u64) -> (r: bool)
        ensures
            r == (old(self).quorum_timeout_h != Some(h)),
            *final(self) == (ClusterGateDedup { quorum_timeout_h: Some(h), ..*old(self) }),
    {
        claim(&mut self.quorum_timeout_h, h)
    }

    pub fn should_log_quorum_wait(&mut self, h: u64) -> (r: bool)
        ensures
            r == (old(self).quorum_wait_h != Some(h)),
            *final(self) == (ClusterGateDedup { quorum_wait_h: Some(h), ..*old(self) }),
    {
        claim(&mut self.quorum_wait_h, h)
    }

    pub fn should_log_wait_sync(&mut self, h: u64) -> (r: bool)
        ensures
            r == (old(self).waiting_sync_h != Some(h)),
            *final(self) == (ClusterGateDedup { waiting_sync_h: Some(h), ..*old(self) }),
    {
        claim(&mut self.waiting_sync_h, h)
    }

    /// Forgets every claimed height.
    pub fn reset(&mut self)
        ensures
            final(self).missing_round_h is None && final(self).invalid_binding_h is None
                && final(self).invalid_proposer_h is None && final(self).quorum_wait_h is None
                && final(self).quorum_timeout_h is None && final(self).waiting_sync_h is None,
    {
        *self = ClusterGateDedup::default();
    }
}

/// Rolling slot-level counters for proposer seal-loop suppression. One slot
/// is one grid deadline attempt, however many polls revisit it.
#[derive(Debug, Clone, Copy)]
pub struct SealSuppressWindow {
    /// Slots opened in this window.
    pub slots: u64,
    /// Slots that missed the seal deadline (one strike at most per slot).
    pub slot_supp: u64,
    /// Sealed heights produced in this window.
    pub sealed_in: u64,
    /// Gate waits inside the attest timeout envelope.
    pub wait_att: u64,
    /// Gate hard timeouts.
    pub gate_to: u64,
    /// Active slot deadline; `None` between attempts.
    pub active_deadline_ms: Option<u64>,
    /// Suppression evaluation start for the active slot.
    pub attempt_start_ms: Option<u64>,
    /// A suppression strike was recorded for the active slot.
    pub supp_marked: bool,
    /// Last suppression cause inside this window.
    pub last_reason: Option<SuppressReason>,
    /// Height whose gate wait was counted.
    pub wait_marked_h: Option<u64>,
    /// Height whose gate timeout was counted.
    pub timeout_marked_h: Option<u64>,
    /// Height whose suppression strike was counted.
    pub strike_marked_h: Option<u64>,
}

pub open spec fn empty_window() -> SealSuppressWindow {
    SealSuppressWindow {
        slots: 0,
        slot_supp: 0,
        sealed_in: 0,
        wait_att: 0,
        gate_to: 0,
        active_deadline_ms: None,
        attempt_start_ms: None,
        supp_marked: false,
        last_reason: None,
        wait_marked_h: None,
        timeout_marked_h: None,
        strike_marked_h: None,
    }
}

impl Default for SealSuppressWindow {
    fn default() -> (r: Self)
        ensures
            r == empty_window(),
    {
        SealSuppressWindow {
            slots: 0,
            slot_supp: 0,
            sealed_in: 0,
            wait_att: 0,
            gate_to: 0,
            active_deadline_ms: None,
            attempt_start_ms: None,
            supp_marked: false,
            last_reason: None,
            wait_marked_h: None,
            timeout_marked_h: None,
            strike_marked_h: None,
        }
    }
}

pub open spec fn eval_supp_spec(
    w: SealSuppressWindow,
    now_ms: u64,
    nominal_ms: u64,
    reason: SuppressReason,
    target_h: Option<u64>,
) -> (SealSuppressWindow, bool) {
    if target_h is Some && w.strike_marked_h == target_h {
        (w, false)
    } else if w.active_deadline_ms is None || w.supp_marked {
        (w, false)
    } else {
        match w.attempt_start_ms {
            None => (SealSuppressWindow { attempt_start_ms: Some(now_ms), ..w }, false),
            Some(start) => if sat_sub(now_ms, start) <= max_u64(nominal_ms, 1) {
                (w, false)
            } else {
                (
                    SealSuppressWindow {
                        slot_supp: sat_add(w.slot_supp, 1),
                        last_reason: Some(reason),
                        supp_marked: true,
                        strike_marked_h: if target_h is Some {
                            target_h
                        } else {
                            w.strike_marked_h
                        },
                        attempt_start_ms: Some(sat_add(now_ms, SEAL_POLL_INTERVAL_MS)),
                        ..w
                    },
                    true,
                )
            },
        }
    }
}

impl SealSuppressWindow {
    pub fn mk_new() -> (r: Self)
        ensures
            r == empty_window(),
    {
        SealSuppressWindow::default()
    }

    /// Opens a slot for `deadline_ms` unless it is the active one; a slot left
    /// without a strike when a new deadline arrives counts as skipped.
    pub fn begin_slot(&mut self, deadline_ms: u64, now_ms: u64) -> (r: bool)
        ensures
            r == (old(self).active_deadline_ms != Some(deadline_ms)),
            !r ==> *final(self) == *old(self),
            r ==> *final(self) == (SealSuppressWindow {
                slot_supp: if old(self).active_deadline_ms is Some && !old(self).supp_marked {
                    sat_add(old(self).slot_supp, 1)
                } else {
                    old(self).slot_supp
                },
                last_reason: if old(self).active_deadline_ms is Some && !old(self).supp_marked {
                    Some(SuppressReason::SlotSkipped)
                } else {
                    old(self).last_reason
                },
                active_deadline_ms: Some(deadline_ms),
                attempt_start_ms: Some(now_ms),
                supp_marked: false,
                slots: sat_add(old(self).slots, 1),
                ..*old(self)
            }),
    {
        if let Some(d) = self.active_deadline_ms {
            if d == deadline_ms {
                return false;
            }
        }
        if self.active_deadline_ms.is_some() && !self.supp_marked {
            self.slot_supp = self.slot_supp.saturating_add(1);
            self.last_reason = Some(SuppressReason::SlotSkipped);
        }
        self.active_deadline_ms = Some(deadline_ms);
        self.attempt_start_ms = Some(now_ms);
        self.supp_marked = false;
        self.slots = self.slots.saturating_add(1);
        true
    }

    /// Counts one gate wait for seal target `target_h`, once per height.
    pub fn note_wait_for_height(&mut self, target_h: u64) -> (r: bool)
        ensures
            r == (old(self).wait_marked_h != Some(target_h)),
            !r ==> *final(self) == *old(self),
            r ==> *final(self) == (SealSuppressWindow {
                wait_marked_h: Some(target_h),
                wait_att: sat_add(old(self).wait_att, 1),
                ..*old(self)
            }),
    {
        if let Some(h) = self.wait_marked_h {
            if h == target_h {
                return false;
            }
        }
        self.wait_marked_h = Some(target_h);
        self.wait_att = self.wait_att.saturating_add(1);
        true
    }

    /// Counts one gate timeout for seal target `target_h`, once per height.
    pub fn note_to_for_height(&mut self, target_h: u64) -> (r: bool)
        ensures
            r == (old(self).timeout_marked_h != Some(target_h)),
            !r ==> *final(self) == *old(self),
            r ==> *final(self) == (SealSuppressWindow {
                timeout_marked_h: Some(target_h),
                gate_to: sat_add(old(self).gate_to, 1),
                ..*old(self)
            }),
    {
        if let Some(h) = self.timeout_marked_h {
            if h == target_h {
                return false;
            }
        }
        self.timeout_marked_h = Some(target_h);
        self.gate_to = self.gate_to.saturating_add(1);
        true
    }

    /// Records one suppression strike for the active slot once the nominal
    /// interval has elapsed since the attempt started.
    pub fn eval_supp(&mut self, now_ms: u64, nominal_ms: u64, reason: SuppressReason) -> (r: bool)
        ensures
            (*final(self), r) == eval_supp_spec(*old(self), now_ms, nominal_ms, reason, None),
    {
        self.eval_supp_for_height(now_ms, nominal_ms, reason, None)
    }

    /// Like [`Self::eval_supp`], refusing a second strike for the same `target_h`.
    pub fn eval_supp_for_height(
        &mut self,
        now_ms: u64,
        nominal_ms: u64,
        reason: SuppressReason,
        target_h: Option<u64>,
    ) -> (r: bool)
        ensures
            (*final(self), r) == eval_supp_spec(*old(self), now_ms, nominal_ms, reason, target_h),
    {
        if let Some(h) = target_h {
            if let Some(m) = self.strike_marked_h {
                if m == h {
                    return false;
                }
            }
        }
        if self.active_deadline_ms.is_none() || self.supp_marked {
            return false;
        }
        let nominal_ms = if nominal_ms >= 1 {
            nominal_ms
        } else {
            1
        };
        let start_ms = match self.attempt_start_ms {
            Some(s) => s,
            None => {
                self.attempt_start_ms = Some(now_ms);
                return false;
            },
        };
        if now_ms.saturating_sub(start_ms) <= nominal_ms {
            return false;
        }
        self.slot_supp = self.slot_supp.saturating_add(1);
        self.last_reason = Some(reason);
        self.supp_marked = true;
        if let Some(h) = target_h {
            self.strike_marked_h = Some(h);
        }
        self.attempt_start_ms = Some(now_ms.saturating_add(SEAL_POLL_INTERVAL_MS));
        true
    }

    /// Closes the active slot as sealed, without a strike.
    pub fn close_sealed(&mut self)
        ensures
            *final(self) == (SealSuppressWindow {
                sealed_in: sat_add(old(self).sealed_in, 1),
                active_deadline_ms: None,
                attempt_start_ms: None,
                supp_marked: false,
                ..*old(self)
            }),
    {
        self.sealed_in = self.sealed_in.saturating_add(1);
        self.active_deadline_ms = None;
        self.attempt_start_ms = None;
        self.supp_marked = false;
    }

    /// Starts a fresh window.
    pub fn reset(&mut self)
        ensures
            *final(self) == empty_window(),
    {
        *self = SealSuppressWindow::default();
    }
}

/// A slot is struck at most once: after a strike, further evaluations of the
/// same slot record nothing, and a new deadline does not add a skip strike.
pub proof fn lemma_one_strike_per_slot(
    w: SealSuppressWindow,
    now1: u64,
    now2: u64,
    nominal_ms: u64,
    r1: SuppressReason,
    r2: SuppressReason,
    h1: Option<u64>,
    h2: Option<u64>,
)
    requires
        eval_supp_spec(w, now1, nominal_ms, r1, h1).1,
    ensures
        ({
            let w1 = eval_supp_spec(w, now1, nominal_ms, r1, h1).0;
            &&& w1.slot_supp == sat_add(w.slot_supp, 1)
            &&& !eval_supp_spec(w1, now2, nominal_ms, r2, h2).1
            &&& eval_supp_spec(w1, now2, nominal_ms, r2, h2).0.slot_supp == w1.slot_supp
            &&& w1.supp_marked
        }),
{
}

/// Rolling counters for proposer seal-ahead over the suppression window.
#[derive(Debug, Clone, Copy, PartialEq, Eq, Structural)]
pub struct SealAheadWindow {
    /// Ahead triggers that passed attester preflight.
    pub fired: u64,
    /// Ahead window reached while waiting for attesters.
    pub preflight_skip: u64,
    /// Sum of lead times at fire time.
    pub lead_ms_sum: u64,
}

impl Default for SealAheadWindow {
    fn default() -> (r: Self)
        ensures
            r == (SealAheadWindow { fired: 0, preflight_skip: 0, lead_ms_sum: 0 }),
    {
        SealAheadWindow { fired: 0, preflight_skip: 0, lead_ms_sum: 0 }
    }
}

impl SealAheadWindow {
    pub fn mk_new() -> (r: Self)
        ensures
            r == (SealAheadWindow { fired: 0, preflight_skip: 0, lead_ms_sum: 0 }),
    {
        SealAheadWindow::default()
    }

    pub fn note_fired(&mut self, lead_ms: u64)
        ensures
            *final(self) == (SealAheadWindow {
                fired: sat_add(old(self).fired, 1),
                lead_ms_sum: sat_add(old(self).lead_ms_sum, lead_ms),
                ..*old(self)
            }),
    {
        self.fired = self.fired.saturating_add(1);
        self.lead_ms_sum = self.lead_ms_sum.saturating_add(lead_ms);
    }

    pub fn note_preflight_skip(&mut self)
        ensures
            *final(self) == (SealAheadWindow {
                preflight_skip: sat_add(old(self).preflight_skip, 1),
                ..*old(self)
            }),
    {
        self.preflight_skip = self.preflight_skip.saturating_add(1);
    }

    /// Average lead per fired trigger (0 when none fired).
    pub fn avg_lead_ms(&self) -> (r: u64)
        ensures
            r == if self.fired == 0 {
                0
            } else {
                self.lead_ms_sum / self.fired
            },
    {
        if self.fired == 0 {
            0
        } else {
            self.lead_ms_sum / self.fired
        }
    }

    pub fn reset(&mut self)
        ensures
            *final(self) == (SealAheadWindow { fired: 0, preflight_skip: 0, lead_ms_sum: 0 }),
    {
        *self = SealAheadWindow::default();
    }
}

} // verus!
