use pwmd::tx_wire::{
    reject_tx_kind, shape_reject_json, tx_err_wire, tx_kind, tx_reject_json, worker_reject_status,
    TxBodyKind, TxErrorKind,
};
use serde_json::Value;

fn expected_body(phase: &str, kind: &str, class: &str, code: &str, message: &str, trace: &str) -> String {
    let mut err = serde_json::Map::new();
    err.insert("code".to_string(), Value::String(code.to_string()));
    err.insert("message".to_string(), Value::String(message.to_string()));
    err.insert("trace_id".to_string(), Value::String(trace.to_string()));
    let mut root = serde_json::Map::new();
    root.insert("ok".to_string(), Value::Bool(false));
    root.insert("phase".to_string(), Value::String(phase.to_string()));
    root.insert("tx_kind".to_string(), Value::String(kind.to_string()));
    root.insert("response_class".to_string(), Value::String(class.to_string()));
    root.insert("error".to_string(), Value::Object(err));
    Value::Object(root).to_string()
}

#[test]
fn body_kind_names() {
    assert_eq!(tx_kind(TxBodyKind::BurnMark), "burn_mark");
    assert_eq!(reject_tx_kind(TxBodyKind::BurnMark), "burn");
    assert_eq!(tx_kind(TxBodyKind::Export), "export");
    assert_eq!(reject_tx_kind(TxBodyKind::Import), "import");
    assert_eq!(tx_kind(TxBodyKind::Policy), "policy");
    assert_eq!(reject_tx_kind(TxBodyKind::Unstake), "unstake");
}

#[test]
fn burn_errors_have_burn_codes_only_on_burns() {
    assert_eq!(
        tx_err_wire(TxErrorKind::InvalidPurposeChars, "burn"),
        ("E_BURN_SCHEMA_INVALID", "VALIDATION_ERROR")
    );
    assert_eq!(
        tx_err_wire(TxErrorKind::InsufficientMarks, "burn"),
        ("E_BURN_OVER_BALANCE", "STATE_CONFLICT")
    );
    assert_eq!(
        tx_err_wire(TxErrorKind::DomainMismatch, "burn"),
        ("E_BURN_POLICY_REJECT", "POLICY_REJECT")
    );
    assert_eq!(
        tx_err_wire(TxErrorKind::DomainMismatch, "transfer"),
        ("E_SCHEMA_INVALID", "VALIDATION_ERROR")
    );
    assert_eq!(
        tx_err_wire(TxErrorKind::InvalidPurposeLength, "claim"),
        ("E_SCHEMA_INVALID", "VALIDATION_ERROR")
    );
}

#[test]
fn stable_codes_by_error() {
    assert_eq!(
        tx_err_wire(TxErrorKind::ClaimFeeModeConflict, "claim"),
        ("E_MODE_FEE_CONFLICT", "POLICY_REJECT")
    );
    assert_eq!(
        tx_err_wire(TxErrorKind::ClaimAnchorContinuityBroken, "claim"),
        ("E_ANCHOR_CONTINUITY_BROKEN", "STATE_CONFLICT")
    );
    assert_eq!(
        tx_err_wire(TxErrorKind::ImportFeeTooLow, "import"),
        ("E_IMPORT_FEE_TOO_LOW", "POLICY_REJECT")
    );
    assert_eq!(
        tx_err_wire(TxErrorKind::PolicySchemaInvalid, "policy"),
        ("E_POLICY_SCHEMA_INVALID", "VALIDATION_ERROR")
    );
    assert_eq!(
        tx_err_wire(TxErrorKind::PolicyEmergencyCosignRequired, "transfer"),
        ("E_POLICY_EMERGENCY_COSIGN_REQUIRED", "POLICY_REJECT")
    );
    assert_eq!(
        tx_err_wire(TxErrorKind::Other, "transfer"),
        ("E_SCHEMA_INVALID", "VALIDATION_ERROR")
    );
}

#[test]
fn refusal_body_is_sorted_compact_json() {
    let body = tx_reject_json(
        TxBodyKind::BurnMark,
        "00ff",
        "apply",
        TxErrorKind::InsufficientMarks,
        "marks \"short\"\n",
    );
    assert_eq!(
        body,
        expected_body(
            "apply",
            "burn",
            "STATE_CONFLICT",
            "E_BURN_OVER_BALANCE",
            "marks \"short\"\n",
            "00ff"
        )
    );
    let v: Value = serde_json::from_str(&body).unwrap();
    assert_eq!(v["error"]["message"], "marks \"short\"\n");
}

#[test]
fn worker_refusals() {
    assert_eq!(worker_reject_status(true), 400);
    assert_eq!(worker_reject_status(false), 422);
    let body = shape_reject_json(TxBodyKind::Transfer, "ab", TxErrorKind::Other, "bad nonce");
    assert_eq!(
        body,
        expected_body(
            "preflight",
            "transfer",
            "VALIDATION_ERROR",
            "E_SCHEMA_INVALID",
            "tx validation failed: bad nonce",
            "ab"
        )
    );
}
