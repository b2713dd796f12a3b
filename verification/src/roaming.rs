//! Roaming intents as the node's REST surface reports them: intent
//! statuses, the answers of the intent endpoints, the finalize decision and
//! the stuck-intent counters of the status page, and the export readiness
//! refusals the flow log remembers.

use crate::api::{hex32, hex_spec};
use crate::handoff::ExportHandoffOut;
use crate::text::{split_once, split_once_str, starts_with};
use crate::tx_wire::{json_quote, json_str};
use vstd::prelude::*;
use vstd::string::*;

verus! {

// ---------------------------------------------------------------------------
// Intent status
// ---------------------------------------------------------------------------

/// Where a roaming intent stands on its source shard.
#[derive(Clone, Copy, Debug, PartialEq, Eq, Structural)]
pub enum IntentStatus {
    Queued,
    Exported,
    Relayed,
    Imported,
    Expired,
    Failed,
}

/// Wire name of an intent status.
pub open spec fn intent_status_label(s: IntentStatus) -> Seq<char> {
    match s {
        IntentStatus::Queued => "queued"@,
        IntentStatus::Exported => "exported"@,
        IntentStatus::Relayed => "relayed"@,
        IntentStatus::Imported => "imported"@,
        IntentStatus::Expired => "expired"@,
        IntentStatus::Failed => "failed"@,
    }
}

impl IntentStatus {
    /// Wire name (`queued`, `exported`, `relayed`, `imported`, `expired`, `failed`).
    pub fn as_str(self) -> (r: &'static str)
        ensures
            r@ == intent_status_label(self),
    {
        match self {
            IntentStatus::Queued => "queued",
            IntentStatus::Exported => "exported",
            IntentStatus::Relayed => "relayed",
            IntentStatus::Imported => "imported",
            IntentStatus::Expired => "expired",
            IntentStatus::Failed => "failed",
        }
    }
}

// ---------------------------------------------------------------------------
// Request gates
// ---------------------------------------------------------------------------

/// Which roaming request carries an export transaction.
#[derive(Clone, Copy, Debug, PartialEq, Eq, Structural)]
pub enum ExportRequest {
    Readiness,
    CreateIntent,
}

/// Message refusing a non-export transaction body.
pub open spec fn export_body_msg(req: ExportRequest) -> Seq<char> {
    match req {
        ExportRequest::Readiness => "export readiness requires export tx body"@,
        ExportRequest::CreateIntent => "roaming intent create requires export tx body"@,
    }
}

/// Readiness checks and intent creation take only an export transaction;
/// any other body is refused with 400.
pub fn require_export_body(req: ExportRequest, is_export: bool) -> (r: Result<(), (u16, String)>)
    ensures
        is_export ==> r is Ok,
        !is_export ==> (r matches Err((c, m)) && c == 400 && m@ == export_body_msg(req)),
{
    proof {
        reveal_strlit("export readiness requires export tx body");
        reveal_strlit("roaming intent create requires export tx body");
    }
    if is_export {
        return Ok(());
    }
    match req {
        ExportRequest::Readiness => Err(
            (400, String::from_str("export readiness requires export tx body")),
        ),
        ExportRequest::CreateIntent => Err(
            (400, String::from_str("roaming intent create requires export tx body")),
        ),
    }
}

// ---------------------------------------------------------------------------
// Intents
// ---------------------------------------------------------------------------

/// A roaming intent as the source shard's pool records it.
#[derive(Clone, Debug)]
pub struct RoamingIntent {
    pub intent_id: [u8; 32],
    pub export_id: [u8; 32],
    pub source: [u8; 32],
    pub to: [u8; 32],
    pub target_domain: u16,
    pub amount: u128,
    pub fee: u128,
    pub status: IntentStatus,
    pub created_height: u64,
    pub expires_at_height: u64,
    pub last_error: Option<String>,
}

/// Answer of `POST /v1/roaming/intents`.
#[derive(Clone, Debug)]
pub struct CreateRoamingIntentOut {
    pub intent_id: String,
    pub export_id: String,
    pub status: IntentStatus,
    pub created_height: u64,
    pub expires_at_height: u64,
    pub duplicate: bool,
}

/// Answer to a create request for `intent` (`duplicate` where an existing
/// intent was reused for the same export).
pub fn create_intent_out(intent: &RoamingIntent, duplicate: bool) -> (r: CreateRoamingIntentOut)
    ensures
        r.intent_id@ == hex_spec(intent.intent_id@),
        r.export_id@ == hex_spec(intent.export_id@),
        r.status == intent.status,
        r.created_height == intent.created_height,
        r.expires_at_height == intent.expires_at_height,
        r.duplicate == duplicate,
{
    CreateRoamingIntentOut {
        intent_id: hex32(&intent.intent_id),
        export_id: hex32(&intent.export_id),
        status: intent.status,
        created_height: intent.created_height,
        expires_at_height: intent.expires_at_height,
        duplicate,
    }
}

/// Flow note of an accepted create request.
pub open spec fn accept_note(duplicate: bool) -> Seq<char> {
    if duplicate {
        "duplicate export delivery; existing intent reused"@
    } else {
        "roaming intent created"@
    }
}

/// Flow note of an accepted create request.
pub fn intent_accept_note(duplicate: bool) -> (r: &'static str)
    ensures
        r@ == accept_note(duplicate),
{
    if duplicate {
        "duplicate export delivery; existing intent reused"
    } else {
        "roaming intent created"
    }
}

/// Answer of `GET /v1/roaming/intents/{id}`.
#[derive(Clone, Debug)]
pub struct IntentStatusOut {
    pub intent_id: String,
    pub export_id: String,
    pub source: String,
    pub to: String,
    pub target_domain: u16,
    pub amount: u128,
    pub fee: u128,
    pub status: IntentStatus,
    pub created_height: u64,
    pub expires_at_height: u64,
    pub last_error: Option<String>,
    pub relay_mode: &'static str,
    pub relay_hint: &'static str,
}

/// Relay hint of the intent status answer.
pub open spec fn status_relay_hint() -> Seq<char> {
    "Source RPC performs peer relay through configured --transport-peer-seed; manual handoff commands remain fallback."@
}

/// Status answer for `intent`, under the node's relay mode.
pub fn intent_status_out(intent: &RoamingIntent, relay_mode: &'static str) -> (r: IntentStatusOut)
    ensures
        r.intent_id@ == hex_spec(intent.intent_id@),
        r.export_id@ == hex_spec(intent.export_id@),
        r.source@ == hex_spec(intent.source@),
        r.to@ == hex_spec(intent.to@),
        r.target_domain == intent.target_domain,
        r.amount == intent.amount,
        r.fee == intent.fee,
        r.status == intent.status,
        r.created_height == intent.created_height,
        r.expires_at_height == intent.expires_at_height,
        r.last_error == intent.last_error,
        r.relay_mode == relay_mode,
        r.relay_hint@ == status_relay_hint(),
{
    IntentStatusOut {
        intent_id: hex32(&intent.intent_id),
        export_id: hex32(&intent.export_id),
        source: hex32(&intent.source),
        to: hex32(&intent.to),
        target_domain: intent.target_domain,
        amount: intent.amount,
        fee: intent.fee,
        status: intent.status,
        created_height: intent.created_height,
        expires_at_height: intent.expires_at_height,
        last_error: intent.last_error.clone(),
        relay_mode,
        relay_hint: "Source RPC performs peer relay through configured --transport-peer-seed; manual handoff commands remain fallback.",
    }
}

// ---------------------------------------------------------------------------
// Export readiness
// ---------------------------------------------------------------------------

/// Answer of `POST /v1/export/readiness`.
#[derive(Clone, Debug)]
pub struct ExportReadinessOut {
    pub ready: bool,
    pub export_id: String,
    pub expires_at_unix_ms: u64,
    pub reason_code: &'static str,
    pub recovery_hint: &'static str,
}

/// Lifetime of a readiness grant: the requested seconds (else the
/// default), at least 1 and at most `max_sec`.
pub open spec fn readiness_ttl(requested: Option<u64>, default_sec: u64, max_sec: u64) -> u64 {
    let t = match requested {
        Some(t) => t,
        None => default_sec,
    };
    let t = if t < 1 {
        1
    } else {
        t
    };
    if t > max_sec {
        max_sec
    } else {
        t
    }
}

/// Lifetime of a readiness grant in seconds.
pub fn readiness_ttl_sec(requested: Option<u64>, default_sec: u64, max_sec: u64) -> (r: u64)
    ensures
        r == readiness_ttl(requested, default_sec, max_sec),
{
    let t = match requested {
        Some(t) => t,
        None => default_sec,
    };
    let t = if t < 1 {
        1
    } else {
        t
    };
    if t > max_sec {
        max_sec
    } else {
        t
    }
}

/// Recovery hint of a granted readiness.
pub open spec fn readiness_hint() -> Seq<char> {
    "Submit the exact EXPORT payload before TTL expires."@
}

/// Answer granting readiness for the export with this id until
/// `expires_at_unix_ms`.
pub fn readiness_out(export_id: &[u8; 32], expires_at_unix_ms: u64) -> (r: ExportReadinessOut)
    ensures
        r.ready,
        r.export_id@ == hex_spec(export_id@),
        r.expires_at_unix_ms == expires_at_unix_ms,
        r.reason_code@ == "ready"@,
        r.recovery_hint@ == readiness_hint(),
{
    ExportReadinessOut {
        ready: true,
        export_id: hex32(export_id),
        expires_at_unix_ms,
        reason_code: "ready",
        recovery_hint: "Submit the exact EXPORT payload before TTL expires.",
    }
}

/// Flow note of a granted readiness: the milliseconds left at `now_ms`.
pub open spec fn readiness_note(expires_at_unix_ms: u64, now_ms: u64) -> Seq<char> {
    "code=ready; hint=submit export before ttl_ms="@ + crate::text::dec(
        (if expires_at_unix_ms >= now_ms {
            expires_at_unix_ms - now_ms
        } else {
            0
        }) as nat,
    )
}

/// Flow note of a granted readiness.
pub fn readiness_flow_note(expires_at_unix_ms: u64, now_ms: u64) -> (r: String)
    ensures
        r@ == readiness_note(expires_at_unix_ms, now_ms),
{
    proof {
        reveal_strlit("code=ready; hint=submit export before ttl_ms=");
    }
    let left = if expires_at_unix_ms >= now_ms {
        expires_at_unix_ms - now_ms
    } else {
        0
    };
    let mut s = String::from_str("code=ready; hint=submit export before ttl_ms=");
    crate::text::push_dec(&mut s, left);
    s
}

// ---------------------------------------------------------------------------
// Finalize
// ---------------------------------------------------------------------------

/// Whether finalizing an intent in this status relays its handoff (only
/// intents not relayed yet, and neither imported, expired nor failed).
pub open spec fn finalize_relays(before: IntentStatus) -> bool {
    before == IntentStatus::Queued || before == IntentStatus::Exported
}

/// Message of a finalize request before any relay.
pub open spec fn finalize_note(before: IntentStatus) -> Seq<char> {
    match before {
        IntentStatus::Queued | IntentStatus::Exported =>
            "handoff generated; target provenance registration is pending"@,
        IntentStatus::Relayed => "intent already relayed; waiting for IMPORT on target shard"@,
        IntentStatus::Imported =>
            "intent already imported on target shard; finalize is idempotent"@,
        IntentStatus::Expired => "intent expired before finalize; create a new roaming intent"@,
        IntentStatus::Failed => "intent is failed; inspect status.last_error before retrying"@,
    }
}

/// Whether finalizing relays the handoff, and the message before any relay.
pub fn finalize_plan(before: IntentStatus) -> (r: (bool, &'static str))
    ensures
        r.0 == finalize_relays(before),
        r.1@ == finalize_note(before),
{
    match before {
        IntentStatus::Queued | IntentStatus::Exported => (
            true,
            "handoff generated; target provenance registration is pending",
        ),
        IntentStatus::Relayed => (
            false,
            "intent already relayed; waiting for IMPORT on target shard",
        ),
        IntentStatus::Imported => (
            false,
            "intent already imported on target shard; finalize is idempotent",
        ),
        IntentStatus::Expired => (
            false,
            "intent expired before finalize; create a new roaming intent",
        ),
        IntentStatus::Failed => (
            false,
            "intent is failed; inspect status.last_error before retrying",
        ),
    }
}

/// Answer of `POST /v1/roaming/intents/{id}/finalize`.
#[derive(Clone, Debug)]
pub struct FinalizeRoamingIntentOut {
    pub intent_id: String,
    pub export_id: String,
    pub status: IntentStatus,
    pub changed: bool,
    pub message: String,
    pub handoff: ExportHandoffOut,
}

/// Message after a delivered relay.
pub open spec fn relay_delivered_note() -> Seq<char> {
    "intent finalized after peer relay delivered provenance to target peer"@
}

/// Message after a failed relay.
pub open spec fn relay_pending_note(err: Seq<char>) -> Seq<char> {
    "handoff generated; peer relay pending: "@ + err
}

/// Answer of a finalize request for the intent with these ids, in
/// `status`. `relay` is what relaying the handoff gave: the intent's new
/// status once delivered, or the relay's error; `None` where nothing was
/// relayed. Only a delivered relay changes the intent.
pub fn finalize_out(
    intent_id: &[u8; 32],
    export_id: &[u8; 32],
    status: IntentStatus,
    relay: Option<Result<IntentStatus, String>>,
    handoff: ExportHandoffOut,
) -> (r: FinalizeRoamingIntentOut)
    ensures
        r.intent_id@ == hex_spec(intent_id@),
        r.export_id@ == hex_spec(export_id@),
        r.handoff == handoff,
        match relay {
            None => r.status == status && !r.changed && r.message@ == finalize_note(status),
            Some(Ok(s)) => r.status == s && r.changed && r.message@ == relay_delivered_note(),
            Some(Err(e)) => r.status == status && !r.changed && r.message@ == relay_pending_note(e@),
        },
{
    proof {
        reveal_strlit("intent finalized after peer relay delivered provenance to target peer");
        reveal_strlit("handoff generated; peer relay pending: ");
    }
    let (status, changed, message) = match relay {
        None => {
            let (_, note) = finalize_plan(status);
            (status, false, String::from_str(note))
        },
        Some(Ok(s)) => (
            s,
            true,
            String::from_str("intent finalized after peer relay delivered provenance to target peer"),
        ),
        Some(Err(e)) => {
            let mut m = String::from_str("handoff generated; peer relay pending: ");
            m.append(e.as_str());
            (status, false, m)
        },
    };
    FinalizeRoamingIntentOut {
        intent_id: hex32(intent_id),
        export_id: hex32(export_id),
        status,
        changed,
        message,
        handoff,
    }
}

// ---------------------------------------------------------------------------
// Stuck intents
// ---------------------------------------------------------------------------

/// An intent exported or relayed but not imported yet.
pub open spec fn is_stuck(it: RoamingIntent) -> bool {
    it.status == IntentStatus::Exported || it.status == IntentStatus::Relayed
}

/// Number of intents of `s` in `st`.
pub open spec fn count_status(s: Seq<RoamingIntent>, st: IntentStatus) -> nat
    decreases s.len(),
{
    if s.len() == 0 {
        0
    } else {
        count_status(s.drop_last(), st) + if s.last().status == st {
            1nat
        } else {
            0nat
        }
    }
}

/// Blocks since an intent was created, at tip height `now_h` (0 for one
/// created above the tip).
pub open spec fn intent_age(now_h: u64, it: RoamingIntent) -> u64 {
    if now_h >= it.created_height {
        (now_h - it.created_height) as u64
    } else {
        0
    }
}

/// Age of the oldest stuck intent of `s`, if any is stuck.
pub open spec fn oldest_stuck_age(now_h: u64, s: Seq<RoamingIntent>) -> Option<u64>
    decreases s.len(),
{
    if s.len() == 0 {
        None
    } else {
        let prev = oldest_stuck_age(now_h, s.drop_last());
        let it = s.last();
        if is_stuck(it) {
            let age = intent_age(now_h, it);
            Some(
                match prev {
                    Some(p) => if p >= age {
                        p
                    } else {
                        age
                    },
                    None => age,
                },
            )
        } else {
            prev
        }
    }
}

/// Counters of stuck intents on the status page.
#[derive(Clone, Copy, Debug, PartialEq, Eq)]
pub struct StuckIntents {
    pub exported: u64,
    pub relayed: u64,
    pub oldest_age_blocks: Option<u64>,
}

/// Intents still exported (not yet relayed) and relayed (not yet
/// imported), and the age of the oldest of them, at tip height `now_h`.
pub fn stuck_intents(now_h: u64, intents: &Vec<RoamingIntent>) -> (r: StuckIntents)
    ensures
        r.exported == count_status(intents@, IntentStatus::Exported),
        r.relayed == count_status(intents@, IntentStatus::Relayed),
        r.oldest_age_blocks == oldest_stuck_age(now_h, intents@),
{
    let mut exported: u64 = 0;
    let mut relayed: u64 = 0;
    let mut oldest: Option<u64> = None;
    let mut i: usize = 0;
    while i < intents.len()
        invariant
            i <= intents@.len(),
            exported == count_status(intents@.take(i as int), IntentStatus::Exported),
            relayed == count_status(intents@.take(i as int), IntentStatus::Relayed),
            exported <= i,
            relayed <= i,
            oldest == oldest_stuck_age(now_h, intents@.take(i as int)),
        decreases intents@.len() - i,
    {
        let it = &intents[i];
        let age = if now_h >= it.created_height {
            now_h - it.created_height
        } else {
            0
        };
        let stuck = match it.status {
            IntentStatus::Exported => {
                exported = exported + 1;
                true
            },
            IntentStatus::Relayed => {
                relayed = relayed + 1;
                true
            },
            _ => false,
        };
        if stuck {
            oldest = Some(
                match oldest {
                    Some(p) => if p >= age {
                        p
                    } else {
                        age
                    },
                    None => age,
                },
            );
        }
        assert(intents@.take(i + 1).drop_last() =~= intents@.take(i as int));
        i = i + 1;
    }
    assert(intents@.take(intents@.len() as int) =~= intents@);
    StuckIntents { exported, relayed, oldest_age_blocks: oldest }
}


// ---------------------------------------------------------------------------
// Export readiness refusals in the flow log
// ---------------------------------------------------------------------------

/// Why an export was refused for want of a fresh readiness preflight.
#[derive(Clone, Copy, Debug, PartialEq, Eq, Structural)]
pub enum ReadinessCode {
    MissingPreflight,
    StalePreflight,
    BindingMismatch,
    NonceMismatch,
    HeightMismatch,
}

/// Wire name of a readiness code.
pub open spec fn readiness_label(c: ReadinessCode) -> Seq<char> {
    match c {
        ReadinessCode::MissingPreflight => "missing_preflight"@,
        ReadinessCode::StalePreflight => "stale_preflight"@,
        ReadinessCode::BindingMismatch => "binding_mismatch"@,
        ReadinessCode::NonceMismatch => "nonce_mismatch"@,
        ReadinessCode::HeightMismatch => "height_mismatch"@,
    }
}

/// The code a wire name stands for.
pub open spec fn readiness_of_label(t: Seq<char>) -> Option<ReadinessCode> {
    if t == "missing_preflight"@ {
        Some(ReadinessCode::MissingPreflight)
    } else if t == "stale_preflight"@ {
        Some(ReadinessCode::StalePreflight)
    } else if t == "binding_mismatch"@ {
        Some(ReadinessCode::BindingMismatch)
    } else if t == "nonce_mismatch"@ {
        Some(ReadinessCode::NonceMismatch)
    } else if t == "height_mismatch"@ {
        Some(ReadinessCode::HeightMismatch)
    } else {
        None
    }
}

impl ReadinessCode {
    /// Wire name (`missing_preflight`, `stale_preflight`, `binding_mismatch`,
    /// `nonce_mismatch`, `height_mismatch`).
    pub fn as_str(self) -> (r: &'static str)
        ensures
            r@ == readiness_label(self),
    {
        match self {
            ReadinessCode::MissingPreflight => "missing_preflight",
            ReadinessCode::StalePreflight => "stale_preflight",
            ReadinessCode::BindingMismatch => "binding_mismatch",
            ReadinessCode::NonceMismatch => "nonce_mismatch",
            ReadinessCode::HeightMismatch => "height_mismatch",
        }
    }
}

fn label_code(t: &str) -> (r: Option<ReadinessCode>)
    ensures
        r == readiness_of_label(t@),
{
    if crate::text::str_eq(t, "missing_preflight") {
        Some(ReadinessCode::MissingPreflight)
    } else if crate::text::str_eq(t, "stale_preflight") {
        Some(ReadinessCode::StalePreflight)
    } else if crate::text::str_eq(t, "binding_mismatch") {
        Some(ReadinessCode::BindingMismatch)
    } else if crate::text::str_eq(t, "nonce_mismatch") {
        Some(ReadinessCode::NonceMismatch)
    } else if crate::text::str_eq(t, "height_mismatch") {
        Some(ReadinessCode::HeightMismatch)
    } else {
        None
    }
}

/// A row of the node's transaction flow log.
#[derive(Clone, Debug)]
pub struct FlowTraceRow {
    pub at_height: u64,
    pub kind: String,
    pub tx_id: String,
    pub export_id: Option<String>,
    pub intent_id: Option<String>,
    pub note: Option<String>,
}

/// Answer of `GET /v1/flow/recent`: the flow log, oldest row first.
#[derive(Clone, Debug)]
pub struct FlowTraceOut {
    pub rows: Vec<FlowTraceRow>,
}

/// Kind prefix of the rows that record a readiness refusal.
pub open spec fn readiness_kind() -> Seq<char> {
    "rejected:export_readiness"@
}

/// Note of a readiness refusal row: `code=<code>; hint=<hint>`.
pub open spec fn readiness_note_spec(code: ReadinessCode, hint: Seq<char>) -> Seq<char> {
    "code="@ + readiness_label(code) + "; hint="@ + hint
}

/// What a row's note says: `None` where it holds no `code=…; hint=`
/// field (the row is passed over), else the code it names (`None` inside
/// for an unknown name).
pub open spec fn note_readiness(note: Seq<char>) -> Option<Option<ReadinessCode>> {
    match split_once(note, "code="@) {
        None => None,
        Some((_, tail)) => match split_once(tail, "; hint="@) {
            None => None,
            Some((raw, _)) => Some(readiness_of_label(raw)),
        },
    }
}

pub open spec fn row_note(r: FlowTraceRow) -> Seq<char> {
    match r.note {
        Some(n) => n@,
        None => Seq::empty(),
    }
}

/// Whether the scan stops at a row, and with what.
pub open spec fn row_readiness(r: FlowTraceRow) -> Option<Option<ReadinessCode>> {
    let k = r.kind@;
    if readiness_kind().len() <= k.len() && k.take(readiness_kind().len() as int)
        == readiness_kind() {
        note_readiness(row_note(r))
    } else {
        None
    }
}

/// The latest readiness refusal of the flow log: the newest row that is a
/// readiness refusal with a `code=…; hint=` note decides.
pub open spec fn latest_readiness_spec(rows: Seq<FlowTraceRow>) -> Option<ReadinessCode>
    decreases rows.len(),
{
    if rows.len() == 0 {
        None
    } else {
        match row_readiness(rows.last()) {
            Some(c) => c,
            None => latest_readiness_spec(rows.drop_last()),
        }
    }
}

proof fn lemma_label_read(code: ReadinessCode)
    ensures
        readiness_of_label(readiness_label(code)) == Some(code),
{
    reveal_strlit("missing_preflight");
    reveal_strlit("stale_preflight");
    reveal_strlit("binding_mismatch");
    reveal_strlit("nonce_mismatch");
    reveal_strlit("height_mismatch");
    assert("missing_preflight"@[0] != "stale_preflight"@[0]);
    assert("missing_preflight"@[0] != "binding_mismatch"@[0]);
    assert("missing_preflight"@[0] != "nonce_mismatch"@[0]);
    assert("missing_preflight"@[0] != "height_mismatch"@[0]);
    assert("stale_preflight"@[0] != "binding_mismatch"@[0]);
    assert("stale_preflight"@[0] != "nonce_mismatch"@[0]);
    assert("stale_preflight"@[0] != "height_mismatch"@[0]);
    assert("binding_mismatch"@[0] != "nonce_mismatch"@[0]);
    assert("binding_mismatch"@[0] != "height_mismatch"@[0]);
    assert("nonce_mismatch"@[0] != "height_mismatch"@[0]);
}

proof fn lemma_label_no_semicolon(code: ReadinessCode)
    ensures
        forall|j: int| 0 <= j < readiness_label(code).len() ==> readiness_label(code)[j] != ';',
{
    match code {
        ReadinessCode::MissingPreflight => reveal_strlit("missing_preflight"),
        ReadinessCode::StalePreflight => reveal_strlit("stale_preflight"),
        ReadinessCode::BindingMismatch => reveal_strlit("binding_mismatch"),
        ReadinessCode::NonceMismatch => reveal_strlit("nonce_mismatch"),
        ReadinessCode::HeightMismatch => reveal_strlit("height_mismatch"),
    }
}

proof fn lemma_no_hint_in_label(code: ReadinessCode, hint: Seq<char>)
    ensures
        forall|j: int|
            0 <= j < readiness_label(code).len() ==> !crate::text::occurs_at(
                readiness_label(code) + "; hint="@ + hint,
                "; hint="@,
                j,
            ),
{
    reveal_strlit("; hint=");
    lemma_label_no_semicolon(code);
    let lab = readiness_label(code);
    let p2 = "; hint="@;
    let tail = lab + p2 + hint;
    assert forall|j: int| 0 <= j < lab.len() implies !crate::text::occurs_at(tail, p2, j) by {
        if crate::text::occurs_at(tail, p2, j) {
            assert(tail.subrange(j, j + 7)[0] == p2[0]);
            assert(tail[j] == lab[j]);
        }
    }
}

proof fn lemma_note_readiness(code: ReadinessCode, hint: Seq<char>)
    ensures
        note_readiness(readiness_note_spec(code, hint)) == Some(Some(code)),
{
    reveal_strlit("code=");
    reveal_strlit("; hint=");
    let note = readiness_note_spec(code, hint);
    let lab = readiness_label(code);
    let p1 = "code="@;
    let p2 = "; hint="@;
    let tail = lab + p2 + hint;
    assert(note.subrange(0, 5) =~= p1);
    crate::text::lemma_split_once_at(note, p1, 0);
    assert(note.skip(5) =~= tail);
    assert(tail.subrange(lab.len() as int, lab.len() as int + 7) =~= p2);
    lemma_no_hint_in_label(code, hint);
    crate::text::lemma_split_once_at(tail, p2, lab.len() as int);
    assert(tail.take(lab.len() as int) =~= lab);
    lemma_label_read(code);
}

/// A readiness refusal row, as [`readiness_reject_row`] writes it, is what
/// the scan of the flow log reports next, whatever the transaction kind and
/// hint.
pub proof fn lemma_readiness_note_read_back(
    rows: Seq<FlowTraceRow>,
    row: FlowTraceRow,
    tx_kind: Seq<char>,
    code: ReadinessCode,
    hint: Seq<char>,
)
    requires
        row.kind@ == readiness_kind() + ":"@ + tx_kind,
        row.note matches Some(n) && n@ == readiness_note_spec(code, hint),
    ensures
        latest_readiness_spec(rows.push(row)) == Some(code),
{
    lemma_note_readiness(code, hint);
    assert(row.kind@.take(readiness_kind().len() as int) =~= readiness_kind());
    assert(row_note(row) == readiness_note_spec(code, hint));
    assert(row_readiness(row) == Some(Some(code)));
    assert(rows.push(row).last() == row);
}

/// The note written with a readiness refusal.
pub fn readiness_reject_note(code: ReadinessCode, hint: &str) -> (r: String)
    ensures
        r@ == readiness_note_spec(code, hint@),
{
    proof {
        reveal_strlit("code=");
        reveal_strlit("; hint=");
    }
    let mut out = String::from_str("code=");
    out.append(code.as_str());
    out.append("; hint=");
    out.append(hint);
    out
}

/// Message of a readiness refusal.
pub open spec fn readiness_msg(code: ReadinessCode, hint: Seq<char>) -> Seq<char> {
    "export readiness reject: "@ + readiness_note_spec(code, hint)
}

/// Body of a readiness refusal (409): the compact JSON object with
/// `code`, `hint` and `message`, in that order.
pub open spec fn readiness_reject_body(code: ReadinessCode, hint: Seq<char>) -> Seq<char> {
    "{\"code\":"@ + json_str(readiness_label(code)) + ",\"hint\":"@ + json_str(hint)
        + ",\"message\":"@ + json_str(readiness_msg(code, hint)) + "}"@
}

/// The JSON body answered for a readiness refusal.
pub fn readiness_reject_json(code: ReadinessCode, hint: &str) -> (r: String)
    ensures
        r@ == readiness_reject_body(code, hint@),
{
    proof {
        reveal_strlit("{\"code\":");
        reveal_strlit(",\"hint\":");
        reveal_strlit(",\"message\":");
        reveal_strlit("}");
        reveal_strlit("export readiness reject: ");
    }
    let mut msg = String::from_str("export readiness reject: ");
    let note = readiness_reject_note(code, hint);
    msg.append(note.as_str());
    let mut s = String::from_str("{\"code\":");
    s.append(json_quote(code.as_str()).as_str());
    s.append(",\"hint\":");
    s.append(json_quote(hint).as_str());
    s.append(",\"message\":");
    s.append(json_quote(msg.as_str()).as_str());
    s.append("}");
    s
}

/// The flow-log row of a readiness refusal at height `at_height` of a
/// `tx_kind` transaction with id `tx_id`; an export's id is recorded as both
/// its export and intent id.
pub fn readiness_reject_row(
    at_height: u64,
    tx_kind: &str,
    tx_id: &str,
    export_id: Option<&[u8; 32]>,
    code: ReadinessCode,
    hint: &str,
) -> (r: FlowTraceRow)
    ensures
        r.at_height == at_height,
        r.kind@ == readiness_kind() + ":"@ + tx_kind@,
        r.tx_id@ == tx_id@,
        match export_id {
            Some(e) => (r.export_id matches Some(x) && x@ == hex_spec(e@)) && (r.intent_id matches Some(
                y,
            ) && y@ == hex_spec(e@)),
            None => r.export_id is None && r.intent_id is None,
        },
        r.note matches Some(n) && n@ == readiness_note_spec(code, hint@),
{
    proof {
        reveal_strlit("rejected:export_readiness");
        reveal_strlit(":");
    }
    let mut kind = String::from_str("rejected:export_readiness");
    kind.append(":");
    kind.append(tx_kind);
    let (export_id, intent_id) = match export_id {
        Some(e) => (Some(hex32(e)), Some(hex32(e))),
        None => (None, None),
    };
    FlowTraceRow {
        at_height,
        kind,
        tx_id: String::from_str(tx_id),
        export_id,
        intent_id,
        note: Some(readiness_reject_note(code, hint)),
    }
}

fn row_readiness_exec(r: &FlowTraceRow) -> (c: Option<Option<ReadinessCode>>)
    ensures
        c == row_readiness(*r),
{
    proof {
        reveal_strlit("rejected:export_readiness");
    }
    if !starts_with(r.kind.as_str(), "rejected:export_readiness") {
        return None;
    }
    let note: &str = match &r.note {
        Some(n) => n.as_str(),
        None => "",
    };
    proof {
        reveal_strlit("");
    }
    assert(note@ == row_note(*r));
    match split_once_str(note, "code=") {
        None => None,
        Some((_, tail)) => match split_once_str(tail, "; hint=") {
            None => None,
            Some((raw, _)) => Some(label_code(raw)),
        },
    }
}

/// Scans the flow log from its newest row for the latest readiness refusal.
pub fn latest_readiness_reject(rows: &Vec<FlowTraceRow>) -> (r: Option<ReadinessCode>)
    ensures
        r == latest_readiness_spec(rows@),
{
    let mut i = rows.len();
    assert(rows@.take(i as int) =~= rows@);
    while i > 0
        invariant
            i <= rows@.len(),
            latest_readiness_spec(rows@) == latest_readiness_spec(rows@.take(i as int)),
        decreases i,
    {
        assert(rows@.take(i as int).drop_last() =~= rows@.take(i - 1));
        assert(rows@.take(i as int).last() == rows@[i - 1]);
        match row_readiness_exec(&rows[i - 1]) {
            Some(c) => {
                return c;
            },
            None => {},
        }
        i = i - 1;
    }
    assert(rows@.take(0) =~= Seq::<FlowTraceRow>::empty());
    None
}

} // verus!
