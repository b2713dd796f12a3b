//! How transaction refusals are answered on `POST /v1/tx`: the kind names
//! of transaction bodies, the stable error code and response class of each
//! chain error, and the JSON body of a refusal.

use vstd::prelude::*;
use vstd::string::*;

verus! {

/// Kind of a transaction body.
#[derive(Clone, Copy, Debug, PartialEq, Eq, Structural)]
pub enum TxBodyKind {
    Init,
    Transfer,
    Stake,
    Unstake,
    BurnMark,
    Claim,
    Export,
    Import,
    Policy,
}

/// Name of a body kind in logs and flow traces.
pub open spec fn tx_kind_name(k: TxBodyKind) -> Seq<char> {
    match k {
        TxBodyKind::Init => "init"@,
        TxBodyKind::Transfer => "transfer"@,
        TxBodyKind::Stake => "stake"@,
        TxBodyKind::Unstake => "unstake"@,
        TxBodyKind::BurnMark => "burn_mark"@,
        TxBodyKind::Claim => "claim"@,
        TxBodyKind::Export => "export"@,
        TxBodyKind::Import => "import"@,
        TxBodyKind::Policy => "policy"@,
    }
}

/// Name of a body kind in refusals (a burn is `burn` there).
pub open spec fn reject_kind_name(k: TxBodyKind) -> Seq<char> {
    match k {
        TxBodyKind::BurnMark => "burn"@,
        _ => tx_kind_name(k),
    }
}

/// Name of a body kind in logs and flow traces.
pub fn tx_kind(k: TxBodyKind) -> (r: &'static str)
    ensures
        r@ == tx_kind_name(k),
{
    match k {
        TxBodyKind::Init => "init",
        TxBodyKind::Transfer => "transfer",
        TxBodyKind::Stake => "stake",
        TxBodyKind::Unstake => "unstake",
        TxBodyKind::BurnMark => "burn_mark",
        TxBodyKind::Claim => "claim",
        TxBodyKind::Export => "export",
        TxBodyKind::Import => "import",
        TxBodyKind::Policy => "policy",
    }
}

/// Name of a body kind in refusals.
pub fn reject_tx_kind(k: TxBodyKind) -> (r: &'static str)
    ensures
        r@ == reject_kind_name(k),
{
    match k {
        TxBodyKind::BurnMark => "burn",
        TxBodyKind::Claim => "claim",
        TxBodyKind::Import => "import",
        TxBodyKind::Export => "export",
        TxBodyKind::Transfer => "transfer",
        TxBodyKind::Init => "init",
        TxBodyKind::Stake => "stake",
        TxBodyKind::Unstake => "unstake",
        TxBodyKind::Policy => "policy",
    }
}

/// The chain errors that have a stable wire code; every other error is
/// `Other`.
#[derive(Clone, Copy, Debug, PartialEq, Eq, Structural)]
pub enum TxErrorKind {
    InvalidPurposeLength,
    InvalidPurposeChars,
    InsufficientMarks,
    DomainMismatch,
    ClaimFeeModeConflict,
    ClaimDeltaInvalid,
    ClaimAnchorRangeInvalid,
    ClaimAnchorContinuityBroken,
    ClaimOverMatured,
    FreeClaimDailyLimit,
    ImportFeeTooLow,
    PolicySchemaInvalid,
    PolicyNotInstalled,
    PolicyNotActive,
    PolicyDenied,
    PolicySenderFiltered,
    PolicyRoutingDenied,
    PolicyMissingCosign,
    PolicyRescueRequired,
    PolicyEmergencyCosignRequired,
    PolicyAccountFinalized,
    PolicyIrreversible,
    Other,
}

/// Stable code and response class of a chain error in a refusal of a
/// transaction of the named kind. Burn errors have codes of their own only
/// on burns; anything without a code is a generic schema failure.
pub open spec fn tx_err_wire_spec(e: TxErrorKind, kind: Seq<char>) -> (Seq<char>, Seq<char>) {
    let burn = kind == "burn"@;
    match e {
        TxErrorKind::InvalidPurposeLength if burn => ("E_BURN_SCHEMA_INVALID"@, "VALIDATION_ERROR"@),
        TxErrorKind::InvalidPurposeChars if burn => ("E_BURN_SCHEMA_INVALID"@, "VALIDATION_ERROR"@),
        TxErrorKind::InsufficientMarks if burn => ("E_BURN_OVER_BALANCE"@, "STATE_CONFLICT"@),
        TxErrorKind::DomainMismatch if burn => ("E_BURN_POLICY_REJECT"@, "POLICY_REJECT"@),
        TxErrorKind::ClaimFeeModeConflict => ("E_MODE_FEE_CONFLICT"@, "POLICY_REJECT"@),
        TxErrorKind::ClaimDeltaInvalid => ("E_CLAIM_UNITS_INVALID"@, "VALIDATION_ERROR"@),
        TxErrorKind::ClaimAnchorRangeInvalid => ("E_ANCHOR_RANGE_INVALID"@, "STATE_CONFLICT"@),
        TxErrorKind::ClaimAnchorContinuityBroken => (
            "E_ANCHOR_CONTINUITY_BROKEN"@,
            "STATE_CONFLICT"@,
        ),
        TxErrorKind::ClaimOverMatured => ("E_CLAIM_OVER_MATURED"@, "STATE_CONFLICT"@),
        TxErrorKind::FreeClaimDailyLimit => ("E_FREE_CLAIM_DAILY_LIMIT"@, "POLICY_REJECT"@),
        TxErrorKind::ImportFeeTooLow => ("E_IMPORT_FEE_TOO_LOW"@, "POLICY_REJECT"@),
        TxErrorKind::PolicySchemaInvalid => ("E_POLICY_SCHEMA_INVALID"@, "VALIDATION_ERROR"@),
        TxErrorKind::PolicyNotInstalled => ("E_POLICY_NOT_INSTALLED"@, "POLICY_REJECT"@),
        TxErrorKind::PolicyNotActive => ("E_POLICY_NOT_ACTIVE"@, "POLICY_REJECT"@),
        TxErrorKind::PolicyDenied => ("E_POLICY_DENIED"@, "POLICY_REJECT"@),
        TxErrorKind::PolicySenderFiltered => ("E_POLICY_SENDER_FILTERED"@, "POLICY_REJECT"@),
        TxErrorKind::PolicyRoutingDenied => ("E_POLICY_ROUTING_DENIED"@, "POLICY_REJECT"@),
        TxErrorKind::PolicyMissingCosign => ("E_POLICY_MISSING_COSIGN"@, "POLICY_REJECT"@),
        TxErrorKind::PolicyRescueRequired => ("E_POLICY_RESCUE_REQUIRED"@, "POLICY_REJECT"@),
        TxErrorKind::PolicyEmergencyCosignRequired => (
            "E_POLICY_EMERGENCY_COSIGN_REQUIRED"@,
            "POLICY_REJECT"@,
        ),
        TxErrorKind::PolicyAccountFinalized => ("E_POLICY_ACCOUNT_FINALIZED"@, "POLICY_REJECT"@),
        TxErrorKind::PolicyIrreversible => ("E_POLICY_IRREVERSIBLE"@, "POLICY_REJECT"@),
        _ => ("E_SCHEMA_INVALID"@, "VALIDATION_ERROR"@),
    }
}

/// Stable code and response class of a chain error (see [`tx_err_wire_spec`]).
pub fn tx_err_wire(e: TxErrorKind, kind: &str) -> (r: (&'static str, &'static str))
    ensures
        (r.0@, r.1@) == tx_err_wire_spec(e, kind@),
{
    proof {
        reveal_strlit("burn");
    }
    let burn = crate::text::str_eq(kind, "burn");
    match e {
        TxErrorKind::InvalidPurposeLength if burn => ("E_BURN_SCHEMA_INVALID", "VALIDATION_ERROR"),
        TxErrorKind::InvalidPurposeChars if burn => ("E_BURN_SCHEMA_INVALID", "VALIDATION_ERROR"),
        TxErrorKind::InsufficientMarks if burn => ("E_BURN_OVER_BALANCE", "STATE_CONFLICT"),
        TxErrorKind::DomainMismatch if burn => ("E_BURN_POLICY_REJECT", "POLICY_REJECT"),
        TxErrorKind::ClaimFeeModeConflict => ("E_MODE_FEE_CONFLICT", "POLICY_REJECT"),
        TxErrorKind::ClaimDeltaInvalid => ("E_CLAIM_UNITS_INVALID", "VALIDATION_ERROR"),
        TxErrorKind::ClaimAnchorRangeInvalid => ("E_ANCHOR_RANGE_INVALID", "STATE_CONFLICT"),
        TxErrorKind::ClaimAnchorContinuityBroken => (
            "E_ANCHOR_CONTINUITY_BROKEN",
            "STATE_CONFLICT",
        ),
        TxErrorKind::ClaimOverMatured => ("E_CLAIM_OVER_MATURED", "STATE_CONFLICT"),
        TxErrorKind::FreeClaimDailyLimit => ("E_FREE_CLAIM_DAILY_LIMIT", "POLICY_REJECT"),
        TxErrorKind::ImportFeeTooLow => ("E_IMPORT_FEE_TOO_LOW", "POLICY_REJECT"),
        TxErrorKind::PolicySchemaInvalid => ("E_POLICY_SCHEMA_INVALID", "VALIDATION_ERROR"),
        TxErrorKind::PolicyNotInstalled => ("E_POLICY_NOT_INSTALLED", "POLICY_REJECT"),
        TxErrorKind::PolicyNotActive => ("E_POLICY_NOT_ACTIVE", "POLICY_REJECT"),
        TxErrorKind::PolicyDenied => ("E_POLICY_DENIED", "POLICY_REJECT"),
        TxErrorKind::PolicySenderFiltered => ("E_POLICY_SENDER_FILTERED", "POLICY_REJECT"),
        TxErrorKind::PolicyRoutingDenied => ("E_POLICY_ROUTING_DENIED", "POLICY_REJECT"),
        TxErrorKind::PolicyMissingCosign => ("E_POLICY_MISSING_COSIGN", "POLICY_REJECT"),
        TxErrorKind::PolicyRescueRequired => ("E_POLICY_RESCUE_REQUIRED", "POLICY_REJECT"),
        TxErrorKind::PolicyEmergencyCosignRequired => (
            "E_POLICY_EMERGENCY_COSIGN_REQUIRED",
            "POLICY_REJECT",
        ),
        TxErrorKind::PolicyAccountFinalized => ("E_POLICY_ACCOUNT_FINALIZED", "POLICY_REJECT"),
        TxErrorKind::PolicyIrreversible => ("E_POLICY_IRREVERSIBLE", "POLICY_REJECT"),
        _ => ("E_SCHEMA_INVALID", "VALIDATION_ERROR"),
    }
}

/// HTTP status of a refusal by a transaction worker: 400 for a malformed
/// transaction, 422 for any other refusal.
pub fn worker_reject_status(shape_invalid: bool) -> (r: u16)
    ensures
        r == if shape_invalid {
            400u16
        } else {
            422u16
        },
{
    if shape_invalid {
        400
    } else {
        422
    }
}

// ---------------------------------------------------------------------------
// JSON body of a refusal
// ---------------------------------------------------------------------------

/// How `serde_json` writes one character inside a string: `\"`, `\\`, the
/// short escapes `\b \f \n \r \t`, `\u00XX` (lower-case hex) for the
/// other control characters, anything else as it is.
pub open spec fn json_char(c: char) -> Seq<char> {
    if c == '"' {
        seq!['\\', '"']
    } else if c == '\\' {
        seq!['\\', '\\']
    } else if c == '\u{8}' {
        seq!['\\', 'b']
    } else if c == '\u{c}' {
        seq!['\\', 'f']
    } else if c == '\n' {
        seq!['\\', 'n']
    } else if c == '\r' {
        seq!['\\', 'r']
    } else if c == '\t' {
        seq!['\\', 't']
    } else if (c as u32) < 0x20 {
        seq!['\\', 'u', '0', '0'] + crate::text::hex2((c as u32) as u8)
    } else {
        seq![c]
    }
}

/// The escaped characters of a string.
pub open spec fn json_body(s: Seq<char>) -> Seq<char>
    decreases s.len(),
{
    if s.len() == 0 {
        Seq::empty()
    } else {
        json_body(s.drop_last()) + json_char(s.last())
    }
}

/// What `serde_json` writes for a string: quoted and escaped.
pub open spec fn json_str(s: Seq<char>) -> Seq<char> {
    seq!['"'] + json_body(s) + seq!['"']
}

/// `serde_json::to_string` on a string (which does not fail for a string):
/// the string quoted and escaped as [`json_str`] states.
#[verifier::external_body]
pub(crate) fn json_quote(s: &str) -> (r: String)
    ensures
        r@ == json_str(s@),
{
    match serde_json::to_string(s) {
        Ok(t) => t,
        Err(_) => String::new(),
    }
}

/// Body of a refused transaction, as the compact JSON of an object whose
/// keys come in sorted order.
pub open spec fn tx_reject_body(
    phase: Seq<char>,
    kind: Seq<char>,
    class: Seq<char>,
    code: Seq<char>,
    message: Seq<char>,
    trace_id: Seq<char>,
) -> Seq<char> {
    "{\"error\":{\"code\":"@ + json_str(code) + ",\"message\":"@ + json_str(message)
        + ",\"trace_id\":"@ + json_str(trace_id) + "},\"ok\":false,\"phase\":"@ + json_str(phase)
        + ",\"response_class\":"@ + json_str(class) + ",\"tx_kind\":"@ + json_str(kind) + "}"@
}

/// Body of a refused transaction of kind `kind` whose hash is `trace_id`:
/// the phase, the refusal name of the kind, the error's code and class
/// (see [`tx_err_wire_spec`]) and the message.
pub fn tx_reject_json(
    kind: TxBodyKind,
    trace_id: &str,
    phase: &str,
    e: TxErrorKind,
    message: &str,
) -> (r: String)
    ensures
        r@ == tx_reject_body(
            phase@,
            reject_kind_name(kind),
            tx_err_wire_spec(e, reject_kind_name(kind)).1,
            tx_err_wire_spec(e, reject_kind_name(kind)).0,
            message@,
            trace_id@,
        ),
{
    proof {
        reveal_strlit("{\"error\":{\"code\":");
        reveal_strlit(",\"message\":");
        reveal_strlit(",\"trace_id\":");
        reveal_strlit("},\"ok\":false,\"phase\":");
        reveal_strlit(",\"response_class\":");
        reveal_strlit(",\"tx_kind\":");
        reveal_strlit("}");
    }
    let k = reject_tx_kind(kind);
    let (code, class) = tx_err_wire(e, k);
    let mut s = String::from_str("{\"error\":{\"code\":");
    s.append(json_quote(code).as_str());
    s.append(",\"message\":");
    s.append(json_quote(message).as_str());
    s.append(",\"trace_id\":");
    s.append(json_quote(trace_id).as_str());
    s.append("},\"ok\":false,\"phase\":");
    s.append(json_quote(phase).as_str());
    s.append(",\"response_class\":");
    s.append(json_quote(class).as_str());
    s.append(",\"tx_kind\":");
    s.append(json_quote(k).as_str());
    s.append("}");
    s
}

/// Body of a worker's refusal of a malformed transaction: the preflight
/// refusal with message `tx validation failed: <detail>`.
pub fn shape_reject_json(kind: TxBodyKind, trace_id: &str, e: TxErrorKind, detail: &str) -> (r:
    String)
    ensures
        r@ == tx_reject_body(
            "preflight"@,
            reject_kind_name(kind),
            tx_err_wire_spec(e, reject_kind_name(kind)).1,
            tx_err_wire_spec(e, reject_kind_name(kind)).0,
            "tx validation failed: "@ + detail@,
            trace_id@,
        ),
{
    let mut message = String::from_str("tx validation failed: ");
    message.append(detail);
    tx_reject_json(kind, trace_id, "preflight", e, message.as_str())
}

} // verus!
