//! The operator's runtime log override: at most one override at a time,
//! each set under a new revision, restored to the baseline by a delete or
//! once its time runs out. A timer only restores the override it was set
//! for.

use vstd::prelude::*;
use vstd::string::*;

verus! {

/// The active override.
#[derive(Clone, Debug)]
pub struct LogOvrState {
    pub level: String,
    pub focus: String,
    pub reason: Option<String>,
    pub set_at_ms: u64,
    pub expires_at_ms: u64,
    pub auth_mode: String,
    pub rev: u64,
}

/// Answer of the override endpoints.
#[derive(Clone, Debug)]
pub struct LogOvrOut {
    pub active: bool,
    pub level: Option<String>,
    pub focus: Option<String>,
    pub expires_at_ms: Option<u64>,
    pub baseline: String,
    pub reason: Option<String>,
}

/// The override slot and the revision counter.
#[derive(Debug)]
pub struct LogOverrides {
    pub current: Option<LogOvrState>,
    pub counter: u64,
}

pub open spec fn wrap_inc(x: u64) -> u64 {
    if x == u64::MAX {
        0
    } else {
        (x + 1) as u64
    }
}

pub open spec fn sat_inc(x: u64) -> u64 {
    if x == u64::MAX {
        x
    } else {
        (x + 1) as u64
    }
}

/// Whether the timer set for revision `rev` restores the baseline at
/// `now_ms`: the override it was set for is still the active one, and its
/// time is up.
pub open spec fn timer_fires(s: Option<LogOvrState>, rev: u64, now_ms: u64) -> bool {
    s matches Some(row) && row.rev == rev && now_ms >= row.expires_at_ms
}

impl LogOverrides {
    /// No override, revision counter at 0.
    pub fn new() -> (r: Self)
        ensures
            r.current is None,
            r.counter == 0,
    {
        LogOverrides { current: None, counter: 0 }
    }

    /// Sets an override; returns its revision (the counter after one more
    /// step, saturating, while the counter itself wraps).
    pub fn set(
        &mut self,
        level: String,
        focus: String,
        reason: Option<String>,
        now_ms: u64,
        expires_at_ms: u64,
        auth_mode: &str,
    ) -> (rev: u64)
        ensures
            rev == sat_inc(old(self).counter),
            final(self).counter == wrap_inc(old(self).counter),
            final(self).current matches Some(row) && row.level == level && row.focus == focus
                && row.reason == reason && row.set_at_ms == now_ms && row.expires_at_ms
                == expires_at_ms && row.auth_mode@ == auth_mode@ && row.rev == rev,
    {
        let old = self.counter;
        self.counter = if old == u64::MAX {
            0
        } else {
            old + 1
        };
        let rev = if old == u64::MAX {
            old
        } else {
            old + 1
        };
        self.current = Some(
            LogOvrState {
                level,
                focus,
                reason,
                set_at_ms: now_ms,
                expires_at_ms,
                auth_mode: String::from_str(auth_mode),
                rev,
            },
        );
        rev
    }

    /// Restores the baseline; returns whether an override was active. The
    /// counter steps (wrapping) only when one was.
    pub fn clear(&mut self) -> (had: bool)
        ensures
            had == old(self).current is Some,
            final(self).current is None,
            final(self).counter == if had {
                wrap_inc(old(self).counter)
            } else {
                old(self).counter
            },
    {
        if self.current.is_none() {
            return false;
        }
        self.current = None;
        self.counter = if self.counter == u64::MAX {
            0
        } else {
            self.counter + 1
        };
        true
    }

    /// Whether the active override's time is up at `now_ms`.
    pub fn expired(&self, now_ms: u64) -> (r: bool)
        ensures
            r == (self.current matches Some(row) && now_ms >= row.expires_at_ms),
    {
        match &self.current {
            Some(row) => now_ms >= row.expires_at_ms,
            None => false,
        }
    }

    /// Whether the timer of revision `rev` restores the baseline at
    /// `now_ms` (see [`timer_fires`]).
    pub fn timer_fires(&self, rev: u64, now_ms: u64) -> (r: bool)
        ensures
            r == timer_fires(self.current, rev, now_ms),
    {
        match &self.current {
            Some(row) => row.rev == rev && now_ms >= row.expires_at_ms,
            None => false,
        }
    }

    /// The answer for the current override under the `baseline` filter.
    pub fn out(&self, baseline: String) -> (r: LogOvrOut)
        ensures
            r.baseline == baseline,
            match self.current {
                Some(row) => r.active && r.level == Some(row.level) && r.focus == Some(row.focus)
                    && r.expires_at_ms == Some(row.expires_at_ms) && r.reason == row.reason,
                None => !r.active && r.level is None && r.focus is None && r.expires_at_ms is None
                    && r.reason is None,
            },
    {
        match &self.current {
            Some(row) => LogOvrOut {
                active: true,
                level: Some(row.level.clone()),
                focus: Some(row.focus.clone()),
                expires_at_ms: Some(row.expires_at_ms),
                baseline,
                reason: match &row.reason {
                    Some(x) => Some(x.clone()),
                    None => None,
                },
            },
            None => LogOvrOut {
                active: false,
                level: None,
                focus: None,
                expires_at_ms: None,
                baseline,
                reason: None,
            },
        }
    }
}

/// A timer never restores an override other than the one it was set for:
/// once a later override has been set (its revision counted from a counter
/// below `u64::MAX - 1`), the earlier timer no longer fires, whatever the
/// time.
pub proof fn lemma_stale_timer_never_fires(
    counter: u64,
    first_rev: u64,
    later: LogOvrState,
    now_ms: u64,
)
    requires
        counter < u64::MAX - 1,
        first_rev == sat_inc(counter),
        later.rev == sat_inc(wrap_inc(counter)),
    ensures
        !timer_fires(Some(later), first_rev, now_ms),
{
}

/// After a delete, no timer fires.
pub proof fn lemma_cleared_never_fires(rev: u64, now_ms: u64)
    ensures
        !timer_fires(None, rev, now_ms),
{
}

} // verus!
