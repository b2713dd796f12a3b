//! REST wire shapes the handlers answer with, and the verified conversions
//! that fill them from ledger, lease and cluster state.

use crate::ledger::{
    target_cap, target_order, CrossShardDomainSummary, CrossShardFact, CrossShardLedger,
    CrossShardStatus, CrossShardSummary,
};
use crate::lease::{LeaseRuntime, LeaseState};
use crate::lifecycle::{AttSyncRes, SealPreflight};
use crate::text::{hex2, push_hex2, trim, trim_str};
use vstd::prelude::*;
use vstd::string::*;

verus! {

/// Facts returned when a query names no limit.
pub const FACTS_DEFAULT_LIMIT: usize = 256;

// ---------------------------------------------------------------------------
// Hex ids
// ---------------------------------------------------------------------------

/// Lower-case hex of a byte string, two digits per byte.
pub open spec fn hex_spec(b: Seq<u8>) -> Seq<char>
    decreases b.len(),
{
    if b.len() == 0 {
        Seq::empty()
    } else {
        hex_spec(b.drop_last()) + hex2(b.last())
    }
}

/// Lower-case hex of a 32-byte id.
pub fn hex32(b: &[u8; 32]) -> (r: String)
    ensures
        r@ == hex_spec(b@),
{
    let mut out = String::new();
    let mut i: usize = 0;
    assert(b@.take(0) =~= Seq::<u8>::empty());
    while i < 32
        invariant
            b@.len() == 32,
            i <= 32,
            out@ == hex_spec(b@.take(i as int)),
        decreases 32 - i,
    {
        push_hex2(&mut out, b[i]);
        assert(b@.take(i + 1).drop_last() =~= b@.take(i as int));
        assert(b@.take(i + 1).last() == b@[i as int]);
        i = i + 1;
    }
    assert(b@.take(32) =~= b@);
    out
}

/// Value of a hex digit (either case).
pub open spec fn hex_val(c: char) -> Option<u8> {
    if '0' <= c <= '9' {
        Some(((c as u32) - 0x30) as u8)
    } else if 'a' <= c <= 'f' {
        Some(((c as u32) - 0x61 + 10) as u8)
    } else if 'A' <= c <= 'F' {
        Some(((c as u32) - 0x41 + 10) as u8)
    } else {
        None
    }
}

fn hex_val_exec(c: char) -> (r: Option<u8>)
    ensures
        r == hex_val(c),
{
    if '0' <= c && c <= '9' {
        Some(((c as u32) - 0x30) as u8)
    } else if 'a' <= c && c <= 'f' {
        Some(((c as u32) - 0x61 + 10) as u8)
    } else if 'A' <= c && c <= 'F' {
        Some(((c as u32) - 0x41 + 10) as u8)
    } else {
        None
    }
}

/// Byte `i` spelled by hex text `t` (digits `2i` and `2i+1`).
pub open spec fn hex_byte(t: Seq<char>, i: int) -> u8 {
    (hex_val(t[2 * i])->0 * 16 + hex_val(t[2 * i + 1])->0) as u8
}

/// A 32-byte id written as 64 hex digits once trimmed.
pub open spec fn id_text_ok(s: Seq<char>) -> bool {
    let t = trim(s);
    t.len() == 64 && forall|i: int| 0 <= i < 64 ==> (#[trigger] hex_val(t[i])) is Some
}

/// Parses a 32-byte id from hex (surrounding whitespace ignored).
pub fn parse_id(s: &str) -> (r: Result<[u8; 32], ()>)
    ensures
        r is Ok <==> id_text_ok(s@),
        r matches Ok(a) ==> forall|i: int| 0 <= i < 32 ==> a[i] == hex_byte(trim(s@), i),
{
    let t = trim_str(s);
    if t.unicode_len() != 64 {
        return Err(());
    }
    let mut a = [0u8; 32];
    let mut i: usize = 0;
    while i < 32
        invariant
            t@ == trim(s@),
            t@.len() == 64,
            i <= 32,
            forall|j: int| 0 <= j < 2 * i ==> (#[trigger] hex_val(t@[j])) is Some,
            forall|j: int| 0 <= j < i ==> a[j] == hex_byte(t@, j),
        decreases 32 - i,
    {
        let hi = hex_val_exec(t.get_char(2 * i));
        let lo = hex_val_exec(t.get_char(2 * i + 1));
        match (hi, lo) {
            (Some(h), Some(l)) => {
                a[i] = h * 16 + l;
            },
            _ => {
                assert(!id_text_ok(s@)) by {
                    if hi is None {
                        assert(hex_val(t@[2 * i as int]) is None);
                    } else {
                        assert(hex_val(t@[2 * i + 1]) is None);
                    }
                }
                return Err(());
            },
        }
        i = i + 1;
    }
    assert(forall|j: int| 0 <= j < 64 ==> (#[trigger] hex_val(t@[j])) is Some);
    Ok(a)
}

/// Text that `hex::decode` accepts: an even number of hex digits.
pub open spec fn hex_text_ok(t: Seq<char>) -> bool {
    t.len() % 2 == 0 && forall|i: int| 0 <= i < t.len() ==> (#[trigger] hex_val(t[i])) is Some
}

/// Bytes spelled by hex text (two digits per byte).
pub open spec fn hex_bytes(t: Seq<char>) -> Seq<u8> {
    Seq::new(t.len() / 2, |i: int| hex_byte(t, i))
}

proof fn lemma_hex_spec_digits(b: Seq<u8>)
    ensures
        hex_spec(b).len() == 2 * b.len(),
        forall|i: int|
            0 <= i < b.len() ==> hex_spec(b)[2 * i] == crate::text::digit_char((b[i] / 16) as nat)
                && hex_spec(b)[2 * i + 1] == crate::text::digit_char((b[i] % 16) as nat),
    decreases b.len(),
{
    if b.len() > 0 {
        lemma_hex_spec_digits(b.drop_last());
        let p = b.drop_last();
        assert forall|i: int|
            0 <= i < b.len() implies hex_spec(b)[2 * i] == crate::text::digit_char(
                (b[i] / 16) as nat,
            ) && hex_spec(b)[2 * i + 1] == crate::text::digit_char((b[i] % 16) as nat) by {
            if i < p.len() {
                assert(p[i] == b[i]);
            }
        }
    }
}

proof fn lemma_hex_digit(d: nat)
    requires
        d < 16,
    ensures
        hex_val(crate::text::digit_char(d)) == Some(d as u8),
        !crate::text::is_ws(crate::text::digit_char(d)),
{
}

/// Lower-case hex text decodes back to the bytes it spells, and has no
/// surrounding whitespace to trim.
pub proof fn lemma_hex_roundtrip(b: Seq<u8>)
    ensures
        trim(hex_spec(b)) == hex_spec(b),
        hex_text_ok(hex_spec(b)),
        hex_bytes(hex_spec(b)) == b,
{
    let t = hex_spec(b);
    lemma_hex_spec_digits(b);
    assert forall|j: int| #![trigger t[j]] 0 <= j < t.len() implies hex_val(t[j]) is Some
        && !crate::text::is_ws(t[j]) by {
        let i = j / 2;
        lemma_hex_digit((b[i] / 16) as nat);
        lemma_hex_digit((b[i] % 16) as nat);
        if j % 2 == 0 {
            assert(j == 2 * i);
        } else {
            assert(j == 2 * i + 1);
        }
    }
    if t.len() > 0 {
        assert(!crate::text::is_ws(t[0]));
        assert(!crate::text::is_ws(t.last()));
    }
    assert(crate::text::trim_start(t) == t);
    assert(crate::text::trim_end(t) == t);
    assert forall|i: int| 0 <= i < b.len() implies #[trigger] hex_byte(t, i) == b[i] by {
        lemma_hex_digit((b[i] / 16) as nat);
        lemma_hex_digit((b[i] % 16) as nat);
    }
    assert(hex_bytes(t) =~= b);
}

/// Lower-case hex of a byte string.
pub fn hex_encode(b: &[u8]) -> (r: String)
    ensures
        r@ == hex_spec(b@),
{
    let mut out = String::new();
    let mut i: usize = 0;
    assert(b@.take(0) =~= Seq::<u8>::empty());
    while i < b.len()
        invariant
            i <= b@.len(),
            out@ == hex_spec(b@.take(i as int)),
        decreases b@.len() - i,
    {
        push_hex2(&mut out, b[i]);
        assert(b@.take(i + 1).drop_last() =~= b@.take(i as int));
        assert(b@.take(i + 1).last() == b@[i as int]);
        i = i + 1;
    }
    assert(b@.take(b@.len() as int) =~= b@);
    out
}

/// Decodes hex text as `hex::decode` does: an even number of hex digits
/// (either case), two per byte.
pub fn hex_decode(t: &str) -> (r: Result<Vec<u8>, ()>)
    ensures
        r is Ok <==> hex_text_ok(t@),
        r matches Ok(v) ==> v@ == hex_bytes(t@),
{
    let n = t.unicode_len();
    if n % 2 != 0 {
        return Err(());
    }
    let mut out: Vec<u8> = Vec::new();
    let mut i: usize = 0;
    while i < n / 2
        invariant
            n == t@.len(),
            n % 2 == 0,
            i <= n / 2,
            out@.len() == i,
            forall|j: int| 0 <= j < 2 * i ==> (#[trigger] hex_val(t@[j])) is Some,
            forall|j: int| 0 <= j < i ==> out@[j] == hex_byte(t@, j),
        decreases n / 2 - i,
    {
        let hi = hex_val_exec(t.get_char(2 * i));
        let lo = hex_val_exec(t.get_char(2 * i + 1));
        match (hi, lo) {
            (Some(h), Some(l)) => {
                out.push(h * 16 + l);
            },
            _ => {
                assert(!hex_text_ok(t@)) by {
                    if hi is None {
                        assert(hex_val(t@[2 * i as int]) is None);
                    } else {
                        assert(hex_val(t@[2 * i + 1]) is None);
                    }
                }
                return Err(());
            },
        }
        i = i + 1;
    }
    assert(forall|j: int| 0 <= j < n ==> (#[trigger] hex_val(t@[j])) is Some);
    assert(out@ =~= hex_bytes(t@));
    Ok(out)
}

/// Account freshness window for cross-shard account views: twice the
/// heartbeat timeout or four heartbeat intervals, whichever is longer, and
/// at least 500 ms (all saturating).
pub fn account_fresh_window_ms(heartbeat_interval_ms: u64, heartbeat_timeout_ms: u64) -> (r: u64)
    ensures
        r == crate::lifecycle::max_u64(
            crate::lifecycle::max_u64(
                crate::lifecycle::sat_mul(heartbeat_timeout_ms, 2),
                crate::lifecycle::sat_mul(heartbeat_interval_ms, 4),
            ),
            500,
        ),
{
    let a = if heartbeat_timeout_ms > u64::MAX / 2 {
        u64::MAX
    } else {
        heartbeat_timeout_ms * 2
    };
    let b = if heartbeat_interval_ms > u64::MAX / 4 {
        u64::MAX
    } else {
        heartbeat_interval_ms * 4
    };
    let m = if a >= b {
        a
    } else {
        b
    };
    if m >= 500 {
        m
    } else {
        500
    }
}

// ---------------------------------------------------------------------------
// Cross-shard facts and summaries
// ---------------------------------------------------------------------------

/// Query of `GET /v1/cross-shard/facts`.
#[derive(Clone, Debug)]
pub struct CrossShardFactsQuery {
    pub target_domain_hi: u8,
    pub from_height: Option<u64>,
    pub limit: Option<usize>,
}

/// A fact as served, ids in hex.
#[derive(Clone, Debug)]
pub struct CrossShardFactOut {
    pub export_id: String,
    pub source_domain_hi: u8,
    pub target_domain_hi: u8,
    pub amount: u128,
    pub status: CrossShardStatus,
    pub first_height: u64,
    pub last_height: u64,
    pub source: Option<String>,
    pub to: String,
    pub intent_id: Option<String>,
}

#[derive(Clone, Debug)]
pub struct CrossShardFactsOut {
    pub target_domain_hi: u8,
    pub from_height: u64,
    pub limit: usize,
    pub total: usize,
    pub facts: Vec<CrossShardFactOut>,
}

pub open spec fn opt_hex(o: Option<[u8; 32]>) -> Option<Seq<char>> {
    match o {
        Some(x) => Some(hex_spec(x@)),
        None => None,
    }
}

pub open spec fn opt_view(o: Option<String>) -> Option<Seq<char>> {
    match o {
        Some(x) => Some(x@),
        None => None,
    }
}

/// `o` is `f` as served.
pub open spec fn fact_out_matches(o: CrossShardFactOut, f: CrossShardFact) -> bool {
    &&& o.export_id@ == hex_spec(f.export_id@)
    &&& o.source_domain_hi == f.source_domain_hi
    &&& o.target_domain_hi == f.target_domain_hi
    &&& o.amount == f.amount
    &&& o.status == f.status
    &&& o.first_height == f.first_height
    &&& o.last_height == f.last_height
    &&& opt_view(o.source) == opt_hex(f.source)
    &&& o.to@ == hex_spec(f.to@)
    &&& opt_view(o.intent_id) == opt_hex(f.intent_id)
}

fn opt_hex32(o: &Option<[u8; 32]>) -> (r: Option<String>)
    ensures
        opt_view(r) == opt_hex(*o),
{
    match o {
        Some(x) => Some(hex32(x)),
        None => None,
    }
}

pub fn fact_out(f: &CrossShardFact) -> (r: CrossShardFactOut)
    ensures
        fact_out_matches(r, *f),
{
    CrossShardFactOut {
        export_id: hex32(&f.export_id),
        source_domain_hi: f.source_domain_hi,
        target_domain_hi: f.target_domain_hi,
        amount: f.amount,
        status: f.status,
        first_height: f.first_height,
        last_height: f.last_height,
        source: opt_hex32(&f.source),
        to: hex32(&f.to),
        intent_id: opt_hex32(&f.intent_id),
    }
}

/// Answers a facts query: height from 0 and limit 256 unless given, the
/// limit clamped to `1..=4096`, the facts as `facts_for_target` lists them.
pub fn facts_response(ledger: &CrossShardLedger, q: &CrossShardFactsQuery) -> (r: CrossShardFactsOut)
    ensures
        r.target_domain_hi == q.target_domain_hi,
        r.from_height == match q.from_height {
            Some(h) => h,
            None => 0,
        },
        r.limit as int == target_cap(
            match q.limit {
                Some(l) => l,
                None => FACTS_DEFAULT_LIMIT,
            },
        ),
        r.total == r.facts@.len(),
        exists|s: Seq<CrossShardFact>|
            #[trigger] target_order(ledger@, q.target_domain_hi, r.from_height, s) && r.facts@.len()
                == (if s.len() < r.limit {
                s.len() as int
            } else {
                r.limit as int
            }) && forall|i: int|
                0 <= i < r.facts@.len() ==> fact_out_matches(#[trigger] r.facts@[i], s[i]),
{
    let from_height = match q.from_height {
        Some(h) => h,
        None => 0,
    };
    let asked = match q.limit {
        Some(l) => l,
        None => FACTS_DEFAULT_LIMIT,
    };
    let limit: usize = if asked < 1 {
        1
    } else if asked > 4096 {
        4096
    } else {
        asked
    };
    let facts = ledger.facts_for_target(q.target_domain_hi, from_height, limit);
    let ghost s = choose|s: Seq<CrossShardFact>|
        #[trigger] target_order(ledger@, q.target_domain_hi, from_height, s) && facts@ == s.take(
            if s.len() < target_cap(limit) {
                s.len() as int
            } else {
                target_cap(limit)
            },
        );
    let mut out: Vec<CrossShardFactOut> = Vec::new();
    let mut i: usize = 0;
    while i < facts.len()
        invariant
            i <= facts@.len(),
            out@.len() == i,
            forall|j: int| 0 <= j < i ==> fact_out_matches(#[trigger] out@[j], facts@[j]),
        decreases facts@.len() - i,
    {
        out.push(fact_out(&facts[i]));
        i = i + 1;
    }
    let total = out.len();
    let r = CrossShardFactsOut {
        target_domain_hi: q.target_domain_hi,
        from_height,
        limit,
        total,
        facts: out,
    };
    assert(target_order(ledger@, q.target_domain_hi, r.from_height, s));
    assert forall|j: int| 0 <= j < r.facts@.len() implies fact_out_matches(
        #[trigger] r.facts@[j],
        s[j],
    ) by {
        assert(facts@[j] == s[j]);
    }
    r
}

/// Per-domain row as served.
#[derive(Clone, Copy, Debug)]
pub struct CrossShardDomainOut {
    pub domain_hi: u8,
    pub exported_amount: u128,
    pub exported_count: u64,
    pub imported_amount: u128,
    pub imported_count: u64,
    pub pending_count: u64,
    pub trusted_peer_observed_count: u64,
}

/// Ledger summary as served.
#[derive(Clone, Debug)]
pub struct CrossShardSummaryOut {
    pub scope: &'static str,
    pub total_exported_amount: u128,
    pub total_exported_count: u64,
    pub total_imported_amount: u128,
    pub total_imported_count: u64,
    pub pending_count: u64,
    pub trusted_peer_observed_count: u64,
    pub by_domain_hi: Vec<CrossShardDomainOut>,
}

pub open spec fn domain_out_matches(o: CrossShardDomainOut, d: CrossShardDomainSummary) -> bool {
    &&& o.domain_hi == d.domain_hi
    &&& o.exported_amount == d.exported_amount
    &&& o.exported_count == d.exported_count
    &&& o.imported_amount == d.imported_amount
    &&& o.imported_count == d.imported_count
    &&& o.pending_count == d.pending_count
    &&& o.trusted_peer_observed_count == d.trusted_peer_observed_count
}

/// The summary in its wire shape, row for row.
pub fn cross_shard_summary_out(summary: CrossShardSummary) -> (r: CrossShardSummaryOut)
    ensures
        r.scope == summary.scope,
        r.total_exported_amount == summary.total_exported_amount,
        r.total_exported_count == summary.total_exported_count,
        r.total_imported_amount == summary.total_imported_amount,
        r.total_imported_count == summary.total_imported_count,
        r.pending_count == summary.pending_count,
        r.trusted_peer_observed_count == summary.trusted_peer_observed_count,
        r.by_domain_hi@.len() == summary.by_domain_hi@.len(),
        forall|i: int|
            0 <= i < r.by_domain_hi@.len() ==> domain_out_matches(
                #[trigger] r.by_domain_hi@[i],
                summary.by_domain_hi@[i],
            ),
{
    let mut rows: Vec<CrossShardDomainOut> = Vec::new();
    let mut i: usize = 0;
    while i < summary.by_domain_hi.len()
        invariant
            i <= summary.by_domain_hi@.len(),
            rows@.len() == i,
            forall|j: int|
                0 <= j < i ==> domain_out_matches(#[trigger] rows@[j], summary.by_domain_hi@[j]),
        decreases summary.by_domain_hi@.len() - i,
    {
        let d = summary.by_domain_hi[i];
        rows.push(
            CrossShardDomainOut {
                domain_hi: d.domain_hi,
                exported_amount: d.exported_amount,
                exported_count: d.exported_count,
                imported_amount: d.imported_amount,
                imported_count: d.imported_count,
                pending_count: d.pending_count,
                trusted_peer_observed_count: d.trusted_peer_observed_count,
            },
        );
        i = i + 1;
    }
    CrossShardSummaryOut {
        scope: summary.scope,
        total_exported_amount: summary.total_exported_amount,
        total_exported_count: summary.total_exported_count,
        total_imported_amount: summary.total_imported_amount,
        total_imported_count: summary.total_imported_count,
        pending_count: summary.pending_count,
        trusted_peer_observed_count: summary.trusted_peer_observed_count,
        by_domain_hi: rows,
    }
}

/// Import provenance as served.
#[derive(Clone, Debug)]
pub struct ImportProvenanceOut {
    pub to: String,
    pub target_domain: u16,
    pub amount: u128,
}

/// Chain head as served.
#[derive(Clone, Debug)]
pub struct HeadOut {
    pub height: u64,
    pub tip: String,
}

// ---------------------------------------------------------------------------
// Manual seal stepping (lab)
// ---------------------------------------------------------------------------

/// One stage of the seal loop, run by hand.
#[derive(Clone, Copy, Debug, PartialEq, Eq, Structural)]
pub enum SealStep {
    Preflight,
    Lease,
    Propose,
    GatePoll,
    GateWait,
    SealCommit,
    StepAll,
}

pub open spec fn step_name_spec(step: SealStep) -> Seq<char> {
    match step {
        SealStep::Preflight => "preflight"@,
        SealStep::Lease => "lease"@,
        SealStep::Propose => "propose"@,
        SealStep::GatePoll => "gate_poll"@,
        SealStep::GateWait => "gate_wait"@,
        SealStep::SealCommit => "seal_commit"@,
        SealStep::StepAll => "step_all"@,
    }
}

pub fn step_name(step: SealStep) -> (r: &'static str)
    ensures
        r@ == step_name_spec(step),
{
    match step {
        SealStep::Preflight => "preflight",
        SealStep::Lease => "lease",
        SealStep::Propose => "propose",
        SealStep::GatePoll => "gate_poll",
        SealStep::GateWait => "gate_wait",
        SealStep::SealCommit => "seal_commit",
        SealStep::StepAll => "step_all",
    }
}

/// Sync readiness as served.
#[derive(Clone, Copy, Debug)]
pub struct SealSyncOut {
    pub sync_n: u64,
    pub live_n: u64,
    pub peer_tip_max: u64,
    pub max_lag: u64,
}

pub fn sync_out(att: AttSyncRes, max_lag: u64) -> (r: SealSyncOut)
    ensures
        r.sync_n == att.sync_n,
        r.live_n == att.live_n,
        r.peer_tip_max == att.peer_tip_max,
        r.max_lag == max_lag,
{
    SealSyncOut {
        sync_n: att.sync_n as u64,
        live_n: att.live_n as u64,
        peer_tip_max: att.peer_tip_max,
        max_lag,
    }
}

/// Lease runtime as served.
#[derive(Clone, Debug)]
pub struct SealLeaseOut {
    pub state: String,
    pub allow_seal: bool,
    pub owner_id: String,
    pub term: u64,
    pub expires_at_ms: u64,
    pub last_tip: u64,
    pub fence: u64,
    pub reason: String,
}

pub open spec fn lease_state_label(s: LeaseState) -> Seq<char> {
    match s {
        LeaseState::ActiveSealing => "active_sealing"@,
        LeaseState::StandbySyncing => "standby_syncing"@,
        LeaseState::SuspectActiveLost => "suspect_active_lost"@,
        LeaseState::FencedStandby => "fenced_standby"@,
    }
}

pub fn lease_out(rt: &LeaseRuntime) -> (r: SealLeaseOut)
    ensures
        r.state@ == lease_state_label(rt.state),
        r.allow_seal == rt.allow_seal,
        r.owner_id@ == rt.owner_id@,
        r.term == rt.term,
        r.expires_at_ms == rt.expires_at_ms,
        r.last_tip == rt.last_tip,
        r.fence == rt.fence,
        r.reason@ == rt.last_reason@,
{
    let state = match rt.state {
        LeaseState::ActiveSealing => String::from_str("active_sealing"),
        LeaseState::StandbySyncing => String::from_str("standby_syncing"),
        LeaseState::SuspectActiveLost => String::from_str("suspect_active_lost"),
        LeaseState::FencedStandby => String::from_str("fenced_standby"),
    };
    SealLeaseOut {
        state,
        allow_seal: rt.allow_seal,
        owner_id: rt.owner_id.clone(),
        term: rt.term,
        expires_at_ms: rt.expires_at_ms,
        last_tip: rt.last_tip,
        fence: rt.fence,
        reason: rt.last_reason.clone(),
    }
}

/// Proposal round as served.
#[derive(Clone, Copy, Debug)]
pub struct SealRoundOut {
    pub height: u64,
    pub round: u32,
    pub got: u64,
    pub need: u8,
    pub propose_opened_at_ms: Option<u64>,
}

/// Round 0 at `target_h` with `attesters` acknowledgements of `quorum_k` needed.
pub fn round_out(target_h: u64, attesters: usize, quorum_k: u8, propose_opened_at_ms: Option<u64>) -> (r:
    SealRoundOut)
    ensures
        r.height == target_h,
        r.round == 0,
        r.got == attesters,
        r.need == quorum_k,
        r.propose_opened_at_ms == propose_opened_at_ms,
{
    SealRoundOut {
        height: target_h,
        round: 0,
        got: attesters as u64,
        need: quorum_k,
        propose_opened_at_ms,
    }
}

/// Time since the round opened, if it has.
pub fn gate_elapsed(now_ms: u64, propose_opened_at_ms: Option<u64>) -> (r: Option<u64>)
    ensures
        r == match propose_opened_at_ms {
            Some(t0) => Some(crate::lifecycle::sat_sub(now_ms, t0)),
            None => None,
        },
{
    match propose_opened_at_ms {
        Some(t0) => Some(now_ms.saturating_sub(t0)),
        None => None,
    }
}

/// Target of a manual step: the requested height, else the height after the tip.
pub fn target_height(requested: Option<u64>, tip_h: u64) -> (r: u64)
    ensures
        r == match requested {
            Some(h) => h,
            None => crate::lease_backend::sat_add(tip_h, 1),
        },
{
    match requested {
        Some(h) => h,
        None => tip_h.saturating_add(1),
    }
}

/// Cluster gate progress as served.
#[derive(Clone, Debug)]
pub struct SealGateOut {
    pub got: u64,
    pub need: u8,
    pub elapsed_ms: Option<u64>,
    pub obs: Option<String>,
}

/// Outcome of one manual step as served.
#[derive(Clone, Debug)]
pub struct SealStepOut {
    pub ok: bool,
    pub step: SealStep,
    pub target_h: u64,
    pub tip_h_after: u64,
    pub duration_ms: u64,
    pub detail: String,
    pub warnings: Vec<String>,
    pub gate: Option<SealGateOut>,
    pub sync: Option<SealSyncOut>,
}

/// Detail line of the preflight step.
pub open spec fn preflight_detail(p: SealPreflight, att: AttSyncRes) -> Seq<char> {
    "preflight="@ + (if p == SealPreflight::Ready {
        "Ready"@
    } else {
        "WaitingAttester"@
    }) + " live_synced_attesters="@ + crate::text::dec(att.sync_n as nat)
        + " live_connected_attesters="@ + crate::text::dec(att.live_n as nat) + " peer_tip_max="@
        + crate::text::dec(att.peer_tip_max as nat)
}

/// Result of the preflight step: ready once enough synced attesters meet
/// the quorum (or the cluster is off).
pub fn preflight_step_out(
    cluster_enabled: bool,
    quorum_k: u8,
    att: AttSyncRes,
    max_lag: u64,
    target_h: u64,
    tip_h_after: u64,
    duration_ms: u64,
) -> (r: SealStepOut)
    ensures
        r.ok == (!cluster_enabled || att.sync_n >= quorum_k),
        r.step == SealStep::Preflight,
        r.target_h == target_h,
        r.tip_h_after == tip_h_after,
        r.duration_ms == duration_ms,
        r.detail@ == preflight_detail(
            if !cluster_enabled || att.sync_n >= quorum_k {
                SealPreflight::Ready
            } else {
                SealPreflight::WaitingAttester
            },
            att,
        ),
        r.warnings@.len() == 0,
        r.gate is None,
        r.sync matches Some(s) && s.sync_n == att.sync_n && s.live_n == att.live_n
            && s.peer_tip_max == att.peer_tip_max && s.max_lag == max_lag,
{
    proof {
        reveal_strlit("preflight=");
        reveal_strlit("Ready");
        reveal_strlit("WaitingAttester");
        reveal_strlit(" live_synced_attesters=");
        reveal_strlit(" live_connected_attesters=");
        reveal_strlit(" peer_tip_max=");
    }
    let p = crate::lifecycle::cluster_seal_preflight(cluster_enabled, att.sync_n, quorum_k);
    let ok = match p {
        SealPreflight::Ready => true,
        SealPreflight::WaitingAttester => false,
    };
    let mut detail = String::from_str("preflight=");
    match p {
        SealPreflight::Ready => detail.append("Ready"),
        SealPreflight::WaitingAttester => detail.append("WaitingAttester"),
    }
    detail.append(" live_synced_attesters=");
    crate::text::push_dec(&mut detail, att.sync_n as u64);
    detail.append(" live_connected_attesters=");
    crate::text::push_dec(&mut detail, att.live_n as u64);
    detail.append(" peer_tip_max=");
    crate::text::push_dec(&mut detail, att.peer_tip_max);
    assert(detail@ =~= preflight_detail(p, att));
    SealStepOut {
        ok,
        step: SealStep::Preflight,
        target_h,
        tip_h_after,
        duration_ms,
        detail,
        warnings: Vec::new(),
        gate: None,
        sync: Some(sync_out(att, max_lag)),
    }
}

// ---------------------------------------------------------------------------
// Request gates
// ---------------------------------------------------------------------------

/// Most entries one offchain batch may hold.
pub const MAX_BATCH_ENTRIES: usize = 4096;

/// Admits an offchain batch of `n` entries: none is refused with 400,
/// more than [`MAX_BATCH_ENTRIES`] with 413.
pub fn offchain_batch_size_ok(n: usize) -> (r: Result<(), (u16, String)>)
    ensures
        n == 0 ==> (r matches Err((c, m)) && c == 400 && m@ == "empty offchain batch"@),
        n > MAX_BATCH_ENTRIES ==> (r matches Err((c, m)) && c == 413 && m@
            == "offchain batch exceeds 4096 entries"@),
        0 < n <= MAX_BATCH_ENTRIES ==> r is Ok,
{
    proof {
        reveal_strlit("empty offchain batch");
        reveal_strlit("offchain batch exceeds 4096 entries");
    }
    if n == 0 {
        return Err((400, String::from_str("empty offchain batch")));
    }
    if n > MAX_BATCH_ENTRIES {
        return Err((413, String::from_str("offchain batch exceeds 4096 entries")));
    }
    Ok(())
}

/// The peer endpoints.
#[derive(Clone, Copy, Debug, PartialEq, Eq, Structural)]
pub enum PeerEndpoint {
    Hello,
    Stats,
}

/// Message of a peer endpoint that does not exist in this configuration.
pub open spec fn peer_endpoint_msg(ep: PeerEndpoint) -> Seq<char> {
    match ep {
        PeerEndpoint::Hello => "peer hello endpoint is available only in dev profile or real transport mode"@,
        PeerEndpoint::Stats => "peer stats endpoint is available only in dev profile or real transport mode"@,
    }
}

/// The peer endpoints exist in the dev profile or with the real transport
/// on; otherwise they answer 404.
pub fn peer_endpoint_access(ep: PeerEndpoint, dev_profile: bool, transport_enabled: bool) -> (r:
    Result<(), (u16, String)>)
    ensures
        (dev_profile || transport_enabled) ==> r is Ok,
        !(dev_profile || transport_enabled) ==> (r matches Err((c, m)) && c == 404 && m@
            == peer_endpoint_msg(ep)),
{
    proof {
        reveal_strlit("peer hello endpoint is available only in dev profile or real transport mode");
        reveal_strlit("peer stats endpoint is available only in dev profile or real transport mode");
    }
    if dev_profile || transport_enabled {
        return Ok(());
    }
    let m = match ep {
        PeerEndpoint::Hello => String::from_str(
            "peer hello endpoint is available only in dev profile or real transport mode",
        ),
        PeerEndpoint::Stats => String::from_str(
            "peer stats endpoint is available only in dev profile or real transport mode",
        ),
    };
    Err((404, m))
}

/// Answer of `POST /v1/peer/hello`; `C` is the peer class the transport
/// assigned.
#[derive(Clone, Debug)]
pub struct PeerHelloOut<C> {
    pub accepted: bool,
    pub reason: Option<String>,
    pub class: Option<C>,
    pub node_hello: Option<crate::handshake::NodeHello>,
}

/// The hello answer: an accepted peer gets its class and this node's own
/// hello; a refused one the refusal label and nothing else.
pub fn peer_hello_out<C>(outcome: Result<C, String>, local_hello: crate::handshake::NodeHello) -> (r:
    PeerHelloOut<C>)
    ensures
        r.accepted == outcome is Ok,
        match outcome {
            Ok(c) => r.reason is None && r.class == Some(c) && r.node_hello == Some(local_hello),
            Err(label) => r.reason == Some(label) && r.class is None && r.node_hello is None,
        },
{
    match outcome {
        Ok(c) => PeerHelloOut { accepted: true, reason: None, class: Some(c), node_hello: Some(local_hello) },
        Err(label) => PeerHelloOut { accepted: false, reason: Some(label), class: None, node_hello: None },
    }
}

// ---------------------------------------------------------------------------
// Who may drive the manual seal
// ---------------------------------------------------------------------------

/// Why the manual seal RPC refuses a caller, if it does: it must come from
/// loopback, and then the node must be the cluster proposer (cluster mode)
/// or have the lab seal API switched on (single node). Refusals are 409.
pub open spec fn lab_seal_refusal(
    remote_is_loopback: bool,
    cluster_enabled: bool,
    is_proposer: bool,
    lab_seal_api: bool,
) -> Option<Seq<char>> {
    if !remote_is_loopback {
        Some("lab seal RPC requires loopback access"@)
    } else if cluster_enabled && !is_proposer {
        Some("lab seal RPC is only allowed on the cluster proposer"@)
    } else if !cluster_enabled && !lab_seal_api {
        Some("lab seal RPC is disabled; enable --lab-seal-api or cluster proposer mode"@)
    } else {
        None
    }
}

/// Admits or refuses a manual seal request.
pub fn lab_seal_access(
    remote_is_loopback: bool,
    cluster_enabled: bool,
    is_proposer: bool,
    lab_seal_api: bool,
) -> (r: Result<(), (u16, String)>)
    ensures
        r is Ok <==> lab_seal_refusal(remote_is_loopback, cluster_enabled, is_proposer, lab_seal_api)
            is None,
        r matches Err((c, m)) ==> c == 409 && Some(m@) == lab_seal_refusal(
            remote_is_loopback,
            cluster_enabled,
            is_proposer,
            lab_seal_api,
        ),
{
    if !remote_is_loopback {
        return Err((409, String::from_str("lab seal RPC requires loopback access")));
    }
    if cluster_enabled {
        if !is_proposer {
            return Err((409, String::from_str("lab seal RPC is only allowed on the cluster proposer")));
        }
    } else if !lab_seal_api {
        return Err(
            (
                409,
                String::from_str(
                    "lab seal RPC is disabled; enable --lab-seal-api or cluster proposer mode",
                ),
            ),
        );
    }
    Ok(())
}

// ---------------------------------------------------------------------------
// Manual seal status and control
// ---------------------------------------------------------------------------

/// Body of `POST /v1/lab/seal/step`.
#[derive(Clone, Copy, Debug)]
pub struct SealStepIn {
    pub step: SealStep,
    pub verbose: Option<bool>,
    pub timeout_ms: Option<u64>,
    pub target_h: Option<u64>,
}

/// Body of `POST /v1/lab/seal/control`; `M` is the seal control mode.
#[derive(Clone, Copy, Debug)]
pub struct SealControlIn<M> {
    pub mode: M,
    pub verbose_default: Option<bool>,
}

/// Bookkeeping of the manual seal driver (its mode is kept beside it).
#[derive(Clone, Debug)]
pub struct ManualSealObs {
    pub target_h: u64,
    pub last_step: Option<String>,
    pub step_t0_ms: u64,
    pub verbose_default: bool,
    pub verbose_until_ms: u64,
}

/// Answer of `GET /v1/lab/seal/status`.
#[derive(Clone, Debug)]
pub struct SealStatusOut<M> {
    pub mode: M,
    pub tip_h: u64,
    pub target_h: u64,
    pub sync_ready: SealSyncOut,
    pub lease: SealLeaseOut,
    pub round: Option<SealRoundOut>,
    pub last_step: Option<String>,
    pub last_step_ms: Option<u64>,
    pub verbose_active: bool,
}

/// Answer of `POST /v1/lab/seal/control`.
#[derive(Clone, Copy, Debug)]
pub struct SealControlOut<M> {
    pub mode: M,
    pub verbose_default: bool,
    pub tip_h: u64,
    pub target_h: u64,
    pub verbose_active: bool,
}

/// A manual step runs only in the manual RPC mode; otherwise 409.
pub fn manual_step_mode_ok(is_manual_rpc: bool) -> (r: Result<(), (u16, String)>)
    ensures
        is_manual_rpc ==> r is Ok,
        !is_manual_rpc ==> (r matches Err((c, m)) && c == 409 && m@
            == "manual seal RPC is disabled; set mode=manual_rpc first"@),
{
    proof {
        reveal_strlit("manual seal RPC is disabled; set mode=manual_rpc first");
    }
    if is_manual_rpc {
        Ok(())
    } else {
        Err((409, String::from_str("manual seal RPC is disabled; set mode=manual_rpc first")))
    }
}

/// Height the manual driver works on: the recorded target, but at least
/// the height after the tip.
pub fn status_target_h(manual_target_h: u64, tip_h: u64) -> (r: u64)
    ensures
        r == if manual_target_h >= crate::lease_backend::sat_add(tip_h, 1) {
            manual_target_h
        } else {
            crate::lease_backend::sat_add(tip_h, 1)
        },
{
    let next = tip_h.saturating_add(1);
    if manual_target_h >= next {
        manual_target_h
    } else {
        next
    }
}

/// The manual seal status page: the round reported is the one at
/// [`status_target_h`] (`round`, looked up by the caller), the last step's
/// start only once one ran, verbose logging while the default asks for it
/// or its window has not closed.
pub fn seal_status_out<M>(
    mode: M,
    tip_h: u64,
    manual: ManualSealObs,
    sync_ready: SealSyncOut,
    lease: SealLeaseOut,
    round: Option<SealRoundOut>,
    now_ms: u64,
) -> (r: SealStatusOut<M>)
    ensures
        r.mode == mode,
        r.tip_h == tip_h,
        r.target_h == if manual.target_h >= crate::lease_backend::sat_add(tip_h, 1) {
            manual.target_h
        } else {
            crate::lease_backend::sat_add(tip_h, 1)
        },
        r.sync_ready == sync_ready,
        r.lease == lease,
        r.round == round,
        r.last_step == manual.last_step,
        r.last_step_ms == if manual.step_t0_ms > 0 {
            Some(manual.step_t0_ms)
        } else {
            None
        },
        r.verbose_active == (manual.verbose_default || now_ms < manual.verbose_until_ms),
{
    let target_h = status_target_h(manual.target_h, tip_h);
    SealStatusOut {
        mode,
        tip_h,
        target_h,
        sync_ready,
        lease,
        round,
        last_step: manual.last_step,
        last_step_ms: if manual.step_t0_ms > 0 {
            Some(manual.step_t0_ms)
        } else {
            None
        },
        verbose_active: manual.verbose_default || now_ms < manual.verbose_until_ms,
    }
}

/// The driver's bookkeeping right after a control request at `now_ms`: no
/// target, the step clock restarted, verbose by default only where asked
/// (then for 5 s), last step `control`.
pub fn manual_after_control(verbose_default: Option<bool>, now_ms: u64) -> (r: ManualSealObs)
    ensures
        r.target_h == 0,
        r.step_t0_ms == now_ms,
        r.verbose_default == (verbose_default == Some(true)),
        r.verbose_until_ms == if verbose_default == Some(true) {
            crate::lease_backend::sat_add(now_ms, MANUAL_VERBOSE_MS)
        } else {
            0
        },
        r.last_step matches Some(s) && s@ == "control"@,
{
    proof {
        reveal_strlit("control");
    }
    let vd = match verbose_default {
        Some(v) => v,
        None => false,
    };
    ManualSealObs {
        target_h: 0,
        last_step: Some(String::from_str("control")),
        step_t0_ms: now_ms,
        verbose_default: vd,
        verbose_until_ms: verbose_until_ms(false, vd, now_ms),
    }
}

/// Answer of a control request, from the status page read after it.
pub fn seal_control_out<M: Copy>(status: &SealStatusOut<M>, verbose_default: bool) -> (r: SealControlOut<M>)
    ensures
        r.mode == status.mode,
        r.verbose_default == verbose_default,
        r.tip_h == status.tip_h,
        r.target_h == status.target_h,
        r.verbose_active == status.verbose_active,
{
    SealControlOut {
        mode: status.mode,
        verbose_default,
        tip_h: status.tip_h,
        target_h: status.target_h,
        verbose_active: status.verbose_active,
    }
}

// ---------------------------------------------------------------------------
// The remaining manual seal steps
// ---------------------------------------------------------------------------

/// How long a manual step keeps verbose logging on once started: 5 s.
pub const MANUAL_VERBOSE_MS: u64 = 5_000;

/// Until when verbose logging stays on after a step started at
/// `start_ms`: 5 s later where the step or the default asks for it, else off (0).
pub fn verbose_until_ms(verbose: bool, verbose_default: bool, start_ms: u64) -> (r: u64)
    ensures
        r == if verbose || verbose_default {
            crate::lease_backend::sat_add(start_ms, MANUAL_VERBOSE_MS)
        } else {
            0
        },
{
    if verbose || verbose_default {
        if start_ms > u64::MAX - MANUAL_VERBOSE_MS {
            u64::MAX
        } else {
            start_ms + MANUAL_VERBOSE_MS
        }
    } else {
        0
    }
}

/// Detail of the lease step.
pub open spec fn lease_detail(ok: bool, owner: Seq<char>, fence: u64) -> Seq<char> {
    (if ok {
        "lease=ok owner="@
    } else {
        "lease=fenced owner="@
    }) + owner + " fence="@ + crate::text::dec(fence as nat)
}

/// Result of the lease step: whether the lease gate let this node seal,
/// with the lease owner and fence.
pub fn lease_step_out(
    ok: bool,
    lease: &SealLeaseOut,
    target_h: u64,
    tip_h_after: u64,
    duration_ms: u64,
) -> (r: SealStepOut)
    ensures
        r.ok == ok,
        r.step == SealStep::Lease,
        r.target_h == target_h,
        r.tip_h_after == tip_h_after,
        r.duration_ms == duration_ms,
        r.detail@ == lease_detail(ok, lease.owner_id@, lease.fence),
        r.warnings@.len() == 0,
        r.gate is None,
        r.sync is None,
{
    proof {
        reveal_strlit("lease=ok owner=");
        reveal_strlit("lease=fenced owner=");
        reveal_strlit(" fence=");
    }
    let mut detail = if ok {
        String::from_str("lease=ok owner=")
    } else {
        String::from_str("lease=fenced owner=")
    };
    detail.append(lease.owner_id.as_str());
    detail.append(" fence=");
    crate::text::push_dec(&mut detail, lease.fence);
    SealStepOut {
        ok,
        step: SealStep::Lease,
        target_h,
        tip_h_after,
        duration_ms,
        detail,
        warnings: Vec::new(),
        gate: None,
        sync: None,
    }
}

/// How long the propose step waits for the proposal to go out: the
/// requested time, else 2 s.
pub fn propose_timeout_ms(requested: Option<u64>) -> (r: u64)
    ensures
        r == match requested {
            Some(t) => t,
            None => 2_000,
        },
{
    match requested {
        Some(t) => t,
        None => 2_000,
    }
}

/// Detail of a propose step that timed out.
pub fn propose_timeout_detail(target_h: u64) -> (r: String)
    ensures
        r@ == "propose timeout waiting for wire send target_h="@ + crate::text::dec(target_h as nat),
{
    proof {
        reveal_strlit("propose timeout waiting for wire send target_h=");
    }
    let mut d = String::from_str("propose timeout waiting for wire send target_h=");
    crate::text::push_dec(&mut d, target_h);
    d
}

/// Result of a propose step whose proposal went out at `opened_at_ms`.
pub fn propose_step_out(opened_at_ms: u64, target_h: u64, tip_h_after: u64, duration_ms: u64) -> (r:
    SealStepOut)
    ensures
        r.ok,
        r.step == SealStep::Propose,
        r.target_h == target_h,
        r.tip_h_after == tip_h_after,
        r.duration_ms == duration_ms,
        r.detail@ == "propose wire_opened_at_ms="@ + crate::text::dec(opened_at_ms as nat),
        r.warnings@.len() == 0,
        r.gate is None,
        r.sync is None,
{
    proof {
        reveal_strlit("propose wire_opened_at_ms=");
    }
    let mut detail = String::from_str("propose wire_opened_at_ms=");
    crate::text::push_dec(&mut detail, opened_at_ms);
    SealStepOut {
        ok: true,
        step: SealStep::Propose,
        target_h,
        tip_h_after,
        duration_ms,
        detail,
        warnings: Vec::new(),
        gate: None,
        sync: None,
    }
}

/// Gate observation as reported by a gate poll.
pub open spec fn gate_obs_label(obs: Option<crate::lifecycle::GateBlock>) -> Seq<char> {
    match obs {
        Some(crate::lifecycle::GateBlock::Wait) => "gate_obs=Wait"@,
        Some(crate::lifecycle::GateBlock::Timeout) => "gate_obs=Timeout"@,
        None => "gate_obs=Ready"@,
    }
}

/// Result of one gate poll: whether the cluster gate opened, what its
/// observation says, and the round's acknowledgements.
pub fn gate_poll_step_out(
    gate_ok: bool,
    obs: Option<crate::lifecycle::GateBlock>,
    got: u64,
    need: u8,
    elapsed_ms: Option<u64>,
    target_h: u64,
    tip_h_after: u64,
    duration_ms: u64,
) -> (r: SealStepOut)
    ensures
        r.ok == gate_ok,
        r.step == SealStep::GatePoll,
        r.target_h == target_h,
        r.tip_h_after == tip_h_after,
        r.duration_ms == duration_ms,
        r.detail@ == gate_obs_label(obs),
        r.warnings@.len() == 0,
        r.gate matches Some(g) && g.got == got && g.need == need && g.elapsed_ms == elapsed_ms,
        r.gate matches Some(g) && (g.obs matches Some(o) && o@ == gate_obs_label(obs)),
        r.sync is None,
{
    let label: &'static str = match obs {
        Some(crate::lifecycle::GateBlock::Wait) => "gate_obs=Wait",
        Some(crate::lifecycle::GateBlock::Timeout) => "gate_obs=Timeout",
        None => "gate_obs=Ready",
    };
    SealStepOut {
        ok: gate_ok,
        step: SealStep::GatePoll,
        target_h,
        tip_h_after,
        duration_ms,
        detail: String::from_str(label),
        warnings: Vec::new(),
        gate: Some(SealGateOut { got, need, elapsed_ms, obs: Some(String::from_str(label)) }),
        sync: None,
    }
}

/// How long a gate wait polls: the requested time, else the
/// attestation timeout plus 500 ms (saturating).
pub fn gate_wait_timeout_ms(requested: Option<u64>, attest_timeout_ms: u64) -> (r: u64)
    ensures
        r == match requested {
            Some(t) => t,
            None => crate::lease_backend::sat_add(attest_timeout_ms, 500),
        },
{
    match requested {
        Some(t) => t,
        None => if attest_timeout_ms > u64::MAX - 500 {
            u64::MAX
        } else {
            attest_timeout_ms + 500
        },
    }
}

/// Result of a gate wait that ended with an open gate: the last poll,
/// reported as the wait step over the whole wait.
pub fn gate_wait_step_out(poll: SealStepOut, duration_ms: u64) -> (r: SealStepOut)
    ensures
        r == (SealStepOut { step: SealStep::GateWait, duration_ms, ..poll }),
{
    SealStepOut { step: SealStep::GateWait, duration_ms, ..poll }
}

/// Detail of a gate wait that timed out.
pub fn gate_wait_timeout_detail(timeout_ms: u64, target_h: u64) -> (r: String)
    ensures
        r@ == "gate_wait timeout_ms="@ + crate::text::dec(timeout_ms as nat) + " target_h="@
            + crate::text::dec(target_h as nat),
{
    proof {
        reveal_strlit("gate_wait timeout_ms=");
        reveal_strlit(" target_h=");
    }
    let mut d = String::from_str("gate_wait timeout_ms=");
    crate::text::push_dec(&mut d, timeout_ms);
    d.append(" target_h=");
    crate::text::push_dec(&mut d, target_h);
    d
}

/// Result of a seal commit that sealed up to `tip_h_after`.
pub fn seal_commit_step_out(target_h: u64, tip_h_after: u64, duration_ms: u64) -> (r: SealStepOut)
    ensures
        r.ok,
        r.step == SealStep::SealCommit,
        r.target_h == target_h,
        r.tip_h_after == tip_h_after,
        r.duration_ms == duration_ms,
        r.detail@ == "sealed height="@ + crate::text::dec(tip_h_after as nat),
        r.warnings@.len() == 0,
        r.gate is None,
        r.sync is None,
{
    proof {
        reveal_strlit("sealed height=");
    }
    let mut detail = String::from_str("sealed height=");
    crate::text::push_dec(&mut detail, tip_h_after);
    SealStepOut {
        ok: true,
        step: SealStep::SealCommit,
        target_h,
        tip_h_after,
        duration_ms,
        detail,
        warnings: Vec::new(),
        gate: None,
        sync: None,
    }
}

/// `{:?}` of a step: its variant name.
pub open spec fn step_debug(step: SealStep) -> Seq<char> {
    match step {
        SealStep::Preflight => "Preflight"@,
        SealStep::Lease => "Lease"@,
        SealStep::Propose => "Propose"@,
        SealStep::GatePoll => "GatePoll"@,
        SealStep::GateWait => "GateWait"@,
        SealStep::SealCommit => "SealCommit"@,
        SealStep::StepAll => "StepAll"@,
    }
}

fn step_debug_str(step: SealStep) -> (r: &'static str)
    ensures
        r@ == step_debug(step),
{
    match step {
        SealStep::Preflight => "Preflight",
        SealStep::Lease => "Lease",
        SealStep::Propose => "Propose",
        SealStep::GatePoll => "GatePoll",
        SealStep::GateWait => "GateWait",
        SealStep::SealCommit => "SealCommit",
        SealStep::StepAll => "StepAll",
    }
}

/// Result of `step_all` once every step went through: the seal step's
/// heights, timing, gate and sync, with the warnings gathered on the way.
pub fn step_all_out(seal: SealStepOut, warnings: Vec<String>) -> (r: SealStepOut)
    ensures
        r.ok,
        r.step == SealStep::StepAll,
        r.target_h == seal.target_h,
        r.tip_h_after == seal.tip_h_after,
        r.duration_ms == seal.duration_ms,
        r.detail@ == "step_all completed via "@ + step_debug(seal.step),
        r.warnings == warnings,
        r.gate == seal.gate,
        r.sync == seal.sync,
{
    proof {
        reveal_strlit("step_all completed via ");
    }
    let mut detail = String::from_str("step_all completed via ");
    detail.append(step_debug_str(seal.step));
    SealStepOut {
        ok: true,
        step: SealStep::StepAll,
        target_h: seal.target_h,
        tip_h_after: seal.tip_h_after,
        duration_ms: seal.duration_ms,
        detail,
        warnings,
        gate: seal.gate,
        sync: seal.sync,
    }
}

} // verus!
