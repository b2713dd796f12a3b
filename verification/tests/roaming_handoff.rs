use ed25519_dalek::{Signer, SigningKey};
use pwmd::api::{hex_decode, hex_encode};
use pwmd::handoff::{
    check_trusted_source, handoff_for_intent, handoff_msg, register_handoff, verify_handoff,
    ExportHandoffOut, HandoffError, TrustedSourcePeer,
};
use pwmd::identity::{RuntimeIdentity, RuntimeIdentityMode};
use pwmd::ledger::{CrossShardLedger, CrossShardStatus};
use pwmd::roaming::{
    create_intent_out, finalize_out, finalize_plan, intent_accept_note, intent_status_out,
    latest_readiness_reject, readiness_flow_note, readiness_out, readiness_reject_json,
    readiness_reject_note, readiness_reject_row, require_export_body, ExportRequest,
    readiness_ttl_sec, stuck_intents, FlowTraceOut, FlowTraceRow, IntentStatus, ReadinessCode, RoamingIntent,
};
use pwmd::text::parse_u128_dec;

fn source_key() -> SigningKey {
    SigningKey::from_bytes(&[7u8; 32])
}

fn source_identity() -> RuntimeIdentity {
    RuntimeIdentity {
        network_id: "pwm-devnet".to_string(),
        cluster_domain_hi: 0x10,
        cluster_id: "cy-a".to_string(),
        node_id: "node-a".to_string(),
        mode: RuntimeIdentityMode::Explicit,
    }
}

fn target_identity() -> RuntimeIdentity {
    RuntimeIdentity {
        network_id: "pwm-devnet".to_string(),
        cluster_domain_hi: 0x20,
        cluster_id: "cy-b".to_string(),
        node_id: "node-b".to_string(),
        mode: RuntimeIdentityMode::Explicit,
    }
}

fn intent(status: IntentStatus, created_height: u64) -> RoamingIntent {
    RoamingIntent {
        intent_id: [0x01; 32],
        export_id: [0xAB; 32],
        source: [0x11; 32],
        to: [0x20; 32],
        target_domain: 0x2001,
        amount: 42,
        fee: 1,
        status,
        created_height,
        expires_at_height: created_height + 100,
        last_error: None,
    }
}

fn relayed_handoff() -> ExportHandoffOut {
    handoff_for_intent(
        &source_identity(),
        &source_key(),
        &intent(IntentStatus::Exported, 5),
        IntentStatus::Relayed,
    )
}

fn trusted_source() -> Option<TrustedSourcePeer> {
    Some(TrustedSourcePeer {
        node_id: "node-a".to_string(),
        cluster_id: "cy-a".to_string(),
        domain_hi: 0x10,
        pubkey: source_key().verifying_key().to_bytes(),
    })
}

fn register(
    ledger: &mut CrossShardLedger,
    h: &ExportHandoffOut,
) -> Result<pwmd::handoff::RegisterHandoffOut, HandoffError> {
    register_handoff(
        ledger,
        h,
        &target_identity(),
        &trusted_source(),
        true,
        Ok(()),
        0x2001,
        false,
        9,
    )
}

#[test]
fn intent_status_wire_names() {
    assert_eq!(IntentStatus::Queued.as_str(), "queued");
    assert_eq!(IntentStatus::Exported.as_str(), "exported");
    assert_eq!(IntentStatus::Relayed.as_str(), "relayed");
    assert_eq!(IntentStatus::Imported.as_str(), "imported");
    assert_eq!(IntentStatus::Expired.as_str(), "expired");
    assert_eq!(IntentStatus::Failed.as_str(), "failed");
}

#[test]
fn handoff_message_layout() {
    let msg = handoff_msg(
        "net", 0x0A, "c1", "n1", "i1", "e1", "s1", "t1", 258, "1000", IntentStatus::Relayed,
    );
    assert_eq!(
        String::from_utf8(msg).unwrap(),
        "pwm-export-handoff-v1|net|0A|c1|n1|i1|e1|s1|t1|258|1000|relayed"
    );
}

#[test]
fn issued_handoff_fields() {
    let h = relayed_handoff();
    assert_eq!(h.proof_version, 1);
    assert_eq!(h.network_id, "pwm-devnet");
    assert_eq!(h.source_domain_hi, 0x10);
    assert_eq!(h.source_cluster_id, "cy-a");
    assert_eq!(h.source_node_id, "node-a");
    assert_eq!(h.intent_id, "01".repeat(32));
    assert_eq!(h.export_id, "ab".repeat(32));
    assert_eq!(h.source, "11".repeat(32));
    assert_eq!(h.to, "20".repeat(32));
    assert_eq!(h.target_domain, 0x2001);
    assert_eq!(h.amount, "42");
    assert_eq!(h.status, IntentStatus::Relayed);
    assert_eq!(
        h.source_node_pubkey,
        hex_encode(&source_key().verifying_key().to_bytes())
    );
    assert_eq!(h.signature.len(), 128);
}

#[test]
fn relayed_handoff_verifies() {
    assert_eq!(verify_handoff(&relayed_handoff()), Ok(()));
}

#[test]
fn handoff_with_padded_hex_verifies() {
    let mut h = relayed_handoff();
    h.source_node_pubkey = format!("  {} ", h.source_node_pubkey.to_uppercase());
    h.signature = format!("\t{}\n", h.signature);
    assert_eq!(verify_handoff(&h), Ok(()));
}

#[test]
fn tampered_amount_rejected() {
    let mut h = relayed_handoff();
    h.amount = "43".to_string();
    assert_eq!(verify_handoff(&h), Err(HandoffError::SignatureInvalid));
}

#[test]
fn proof_version_rejected() {
    let mut h = relayed_handoff();
    h.proof_version = 2;
    assert_eq!(verify_handoff(&h), Err(HandoffError::ProofVersion));
}

#[test]
fn unrelayed_handoff_rejected() {
    let h = handoff_for_intent(
        &source_identity(),
        &source_key(),
        &intent(IntentStatus::Exported, 5),
        IntentStatus::Exported,
    );
    assert_eq!(verify_handoff(&h), Err(HandoffError::NotRelayed));
}

#[test]
fn status_flip_breaks_signature() {
    let mut h = handoff_for_intent(
        &source_identity(),
        &source_key(),
        &intent(IntentStatus::Exported, 5),
        IntentStatus::Exported,
    );
    h.status = IntentStatus::Relayed;
    assert_eq!(verify_handoff(&h), Err(HandoffError::SignatureInvalid));
}

#[test]
fn bad_pubkey_text_rejected() {
    let mut h = relayed_handoff();
    h.source_node_pubkey = "zz".to_string();
    assert_eq!(verify_handoff(&h), Err(HandoffError::PubkeyInvalid));
    h.source_node_pubkey = "abc".to_string();
    assert_eq!(verify_handoff(&h), Err(HandoffError::PubkeyInvalid));
    h.source_node_pubkey = "abcd".to_string();
    assert_eq!(verify_handoff(&h), Err(HandoffError::PubkeyLength));
}

#[test]
fn bad_signature_text_rejected() {
    let mut h = relayed_handoff();
    h.signature = "xy".to_string();
    assert_eq!(verify_handoff(&h), Err(HandoffError::SignatureInvalid));
    h.signature = "00".repeat(10);
    assert_eq!(verify_handoff(&h), Err(HandoffError::SignatureLength));
    h.signature = "00".repeat(64);
    assert_eq!(verify_handoff(&h), Err(HandoffError::SignatureInvalid));
}

#[test]
fn register_files_handoff_provenance() {
    let mut ledger = CrossShardLedger::new();
    let h = relayed_handoff();
    let out = register(&mut ledger, &h).expect("registered");
    assert!(out.registered);
    assert!(!out.duplicate);
    assert_eq!(out.export_id, "ab".repeat(32));
    assert_eq!(out.import_provenance.to, "20".repeat(32));
    assert_eq!(out.import_provenance.target_domain, 0x2001);
    assert_eq!(out.import_provenance.amount, 42);
    let fact = ledger.fact(&[0xAB; 32]).expect("fact");
    assert_eq!(fact.status, CrossShardStatus::Registered);
    assert_eq!(fact.source_domain_hi, 0x10);
    assert_eq!(fact.target_domain_hi, 0x20);
    assert_eq!(fact.amount, 42);
    assert_eq!(fact.source, Some([0x11; 32]));
    assert_eq!(fact.intent_id, Some([0x01; 32]));
    assert_eq!(fact.first_height, 9);
}

#[test]
fn register_twice_is_duplicate() {
    let mut ledger = CrossShardLedger::new();
    let h = relayed_handoff();
    register(&mut ledger, &h).expect("first");
    let out = register(&mut ledger, &h).expect("second");
    assert!(out.duplicate);
    assert!(!out.registered);
    assert_eq!(ledger.len(), 1);
}

#[test]
fn register_conflicting_provenance_refused() {
    let mut ledger = CrossShardLedger::new();
    ledger.record_export([0xAB; 32], 0x1001, [0x11; 32], [0x20; 32], 0x2001, 41, 3, None);
    let before = ledger.facts();
    let err = register(&mut ledger, &relayed_handoff()).unwrap_err();
    assert_eq!(err, HandoffError::ProvenanceConflict);
    assert_eq!(err.status_code(), 400);
    assert_eq!(ledger.facts(), before);
}

#[test]
fn register_network_mismatch_refused() {
    let mut ledger = CrossShardLedger::new();
    let mut target = target_identity();
    target.network_id = "pwm-other".to_string();
    let h = relayed_handoff();
    let err = register_handoff(
        &mut ledger, &h, &target, &trusted_source(), true, Ok(()), 0x2001, false, 9,
    )
    .unwrap_err();
    assert_eq!(err, HandoffError::NetworkMismatch);
    assert_eq!(
        err.message(&h.export_id, &h.intent_id),
        format!(
            "export handoff network_id does not match target node export_id={} intent_id={}",
            h.export_id, h.intent_id
        )
    );
    assert_eq!(ledger.len(), 0);
}

#[test]
fn register_untrusted_source_refused() {
    let mut ledger = CrossShardLedger::new();
    let h = relayed_handoff();
    let err = register_handoff(
        &mut ledger, &h, &target_identity(), &None, true, Ok(()), 0x2001, false, 9,
    )
    .unwrap_err();
    assert_eq!(err, HandoffError::SourceNotTrusted);
    assert_eq!(err.status_code(), 403);
}

#[test]
fn register_source_identity_mismatch_refused() {
    let h = relayed_handoff();
    let mut peer = trusted_source();
    peer.as_mut().unwrap().cluster_id = "cy-z".to_string();
    assert_eq!(
        check_trusted_source(&h, &peer, true),
        Err(HandoffError::SourceMismatch)
    );
    let mut peer = trusted_source();
    peer.as_mut().unwrap().pubkey = [9u8; 32];
    assert_eq!(
        check_trusted_source(&h, &peer, true),
        Err(HandoffError::SourceMismatch)
    );
}

#[test]
fn register_source_not_live_refused() {
    let h = relayed_handoff();
    assert_eq!(
        check_trusted_source(&h, &trusted_source(), false),
        Err(HandoffError::SourceNotLive)
    );
    assert_eq!(check_trusted_source(&h, &trusted_source(), true), Ok(()));
}

#[test]
fn register_recipient_checks() {
    let mut ledger = CrossShardLedger::new();
    let h = relayed_handoff();
    let err = register_handoff(
        &mut ledger,
        &h,
        &target_identity(),
        &trusted_source(),
        true,
        Err("recipient address refused".to_string()),
        0x2001,
        false,
        9,
    )
    .unwrap_err();
    assert_eq!(err.message(&h.export_id, &h.intent_id), "recipient address refused");
    let err = register_handoff(
        &mut ledger, &h, &target_identity(), &trusted_source(), true, Ok(()), 0x3001, false, 9,
    )
    .unwrap_err();
    assert_eq!(err, HandoffError::RecipientDomain);
}

#[test]
fn register_foreign_target_refused() {
    let mut ledger = CrossShardLedger::new();
    let mut target = target_identity();
    target.cluster_domain_hi = 0x30;
    let h = relayed_handoff();
    let err = register_handoff(
        &mut ledger, &h, &target, &trusted_source(), true, Ok(()), 0x2001, false, 9,
    )
    .unwrap_err();
    assert_eq!(err, HandoffError::ForeignTarget);
    assert_eq!(err.status_code(), 409);
    target.mode = RuntimeIdentityMode::Neutral;
    assert!(register_handoff(
        &mut ledger, &h, &target, &trusted_source(), true, Ok(()), 0x2001, false, 9,
    )
    .is_ok());
}

#[test]
fn register_already_imported_refused() {
    let mut ledger = CrossShardLedger::new();
    let h = relayed_handoff();
    let err = register_handoff(
        &mut ledger, &h, &target_identity(), &trusted_source(), true, Ok(()), 0x2001, true, 9,
    )
    .unwrap_err();
    assert_eq!(err, HandoffError::AlreadyImported);
    assert_eq!(
        err.message("e", "i"),
        "export handoff already imported export_id=e intent_id=i"
    );
}

#[test]
fn register_unparsed_intent_id_files_no_intent() {
    let mut ledger = CrossShardLedger::new();
    let mut h = relayed_handoff();
    h.intent_id = "intent-7".to_string();
    let msg = handoff_msg(
        &h.network_id,
        h.source_domain_hi,
        &h.source_cluster_id,
        &h.source_node_id,
        &h.intent_id,
        &h.export_id,
        &h.source,
        &h.to,
        h.target_domain,
        &h.amount,
        h.status,
    );
    h.signature = hex_encode(&source_key().sign(&msg).to_bytes());
    register(&mut ledger, &h).expect("registered");
    assert_eq!(ledger.fact(&[0xAB; 32]).unwrap().intent_id, None);
}

#[test]
fn finalize_plan_by_status() {
    assert_eq!(
        finalize_plan(IntentStatus::Exported),
        (true, "handoff generated; target provenance registration is pending")
    );
    assert_eq!(
        finalize_plan(IntentStatus::Queued),
        (true, "handoff generated; target provenance registration is pending")
    );
    assert_eq!(
        finalize_plan(IntentStatus::Relayed),
        (false, "intent already relayed; waiting for IMPORT on target shard")
    );
    assert_eq!(
        finalize_plan(IntentStatus::Imported),
        (false, "intent already imported on target shard; finalize is idempotent")
    );
    assert_eq!(
        finalize_plan(IntentStatus::Expired),
        (false, "intent expired before finalize; create a new roaming intent")
    );
    assert_eq!(
        finalize_plan(IntentStatus::Failed),
        (false, "intent is failed; inspect status.last_error before retrying")
    );
}

#[test]
fn finalize_answers() {
    let h = relayed_handoff();
    let out = finalize_out(&[1; 32], &[0xAB; 32], IntentStatus::Exported, Some(Ok(IntentStatus::Relayed)), h.clone());
    assert!(out.changed);
    assert_eq!(out.status, IntentStatus::Relayed);
    assert_eq!(
        out.message,
        "intent finalized after peer relay delivered provenance to target peer"
    );
    assert_eq!(out.intent_id, "01".repeat(32));
    let out = finalize_out(
        &[1; 32],
        &[0xAB; 32],
        IntentStatus::Exported,
        Some(Err("no live trusted seed".to_string())),
        h.clone(),
    );
    assert!(!out.changed);
    assert_eq!(out.status, IntentStatus::Exported);
    assert_eq!(out.message, "handoff generated; peer relay pending: no live trusted seed");
    let out = finalize_out(&[1; 32], &[0xAB; 32], IntentStatus::Imported, None, h);
    assert!(!out.changed);
    assert_eq!(
        out.message,
        "intent already imported on target shard; finalize is idempotent"
    );
}

#[test]
fn intent_answers() {
    let it = intent(IntentStatus::Exported, 5);
    let out = create_intent_out(&it, true);
    assert_eq!(out.intent_id, "01".repeat(32));
    assert_eq!(out.export_id, "ab".repeat(32));
    assert_eq!(out.expires_at_height, 105);
    assert!(out.duplicate);
    assert_eq!(intent_accept_note(true), "duplicate export delivery; existing intent reused");
    assert_eq!(intent_accept_note(false), "roaming intent created");
    let st = intent_status_out(&it, "peer_relay");
    assert_eq!(st.source, "11".repeat(32));
    assert_eq!(st.to, "20".repeat(32));
    assert_eq!(st.fee, 1);
    assert_eq!(st.relay_mode, "peer_relay");
    assert!(st.relay_hint.starts_with("Source RPC performs peer relay"));
}

#[test]
fn stuck_intent_counters() {
    let intents = vec![
        intent(IntentStatus::Exported, 10),
        intent(IntentStatus::Relayed, 4),
        intent(IntentStatus::Imported, 1),
        intent(IntentStatus::Exported, 30),
        intent(IntentStatus::Relayed, 50),
    ];
    let s = stuck_intents(40, &intents);
    assert_eq!(s.exported, 2);
    assert_eq!(s.relayed, 2);
    assert_eq!(s.oldest_age_blocks, Some(36));
    let none = stuck_intents(40, &vec![intent(IntentStatus::Imported, 1)]);
    assert_eq!(none.oldest_age_blocks, None);
    assert_eq!(none.exported, 0);
}

#[test]
fn readiness_answers() {
    assert_eq!(readiness_ttl_sec(None, 120, 600), 120);
    assert_eq!(readiness_ttl_sec(Some(0), 120, 600), 1);
    assert_eq!(readiness_ttl_sec(Some(9999), 120, 600), 600);
    let out = readiness_out(&[0xAB; 32], 5_000);
    assert!(out.ready);
    assert_eq!(out.reason_code, "ready");
    assert_eq!(out.expires_at_unix_ms, 5_000);
    assert_eq!(
        readiness_flow_note(5_000, 3_500),
        "code=ready; hint=submit export before ttl_ms=1500"
    );
    assert_eq!(
        readiness_flow_note(5_000, 6_000),
        "code=ready; hint=submit export before ttl_ms=0"
    );
}

#[test]
fn hex_and_amount_codecs() {
    assert_eq!(hex_encode(&[0x00, 0xff, 0x1a]), "00ff1a");
    assert_eq!(hex_decode("00FF1a"), Ok(vec![0x00, 0xff, 0x1a]));
    assert_eq!(hex_decode("abc"), Err(()));
    assert_eq!(hex_decode("zz"), Err(()));
    assert_eq!(parse_u128_dec("340282366920938463463374607431768211455"), Some(u128::MAX));
    assert_eq!(parse_u128_dec("340282366920938463463374607431768211456"), None);
    assert_eq!(parse_u128_dec("+42"), Some(42));
    assert_eq!(parse_u128_dec(""), None);
    assert_eq!(parse_u128_dec("4 2"), None);
}

fn flow(kind: &str, note: Option<&str>) -> FlowTraceRow {
    FlowTraceRow {
        at_height: 1,
        kind: kind.to_string(),
        tx_id: "t".to_string(),
        export_id: None,
        intent_id: None,
        note: note.map(|n| n.to_string()),
    }
}

#[test]
fn latest_readiness_reject_reads_newest_refusal() {
    let note = readiness_reject_note(ReadinessCode::StalePreflight, "run export readiness again");
    assert_eq!(note, "code=stale_preflight; hint=run export readiness again");
    let mut rows = vec![
        flow("rejected:export_readiness:export", Some("code=missing_preflight; hint=x")),
        flow("accepted:export", None),
    ];
    assert_eq!(latest_readiness_reject(&rows), Some(ReadinessCode::MissingPreflight));
    rows.push(flow("rejected:export_readiness:export", Some(&note)));
    rows.push(flow("rejected:nonce:transfer", Some("code=height_mismatch; hint=y")));
    rows.push(flow("rejected:export_readiness:export", Some("no code here")));
    assert_eq!(latest_readiness_reject(&rows), Some(ReadinessCode::StalePreflight));
    // an unknown code stops the scan with nothing
    rows.push(flow("rejected:export_readiness:export", Some("code=other; hint=z")));
    assert_eq!(latest_readiness_reject(&rows), None);
    assert_eq!(latest_readiness_reject(&vec![]), None);
    assert_eq!(ReadinessCode::HeightMismatch.as_str(), "height_mismatch");
}

#[test]
fn readiness_refusal_body_and_row() {
    let body = readiness_reject_json(ReadinessCode::NonceMismatch, "refresh \"readiness\"");
    assert_eq!(
        body,
        r#"{"code":"nonce_mismatch","hint":"refresh \"readiness\"","message":"export readiness reject: code=nonce_mismatch; hint=refresh \"readiness\""}"#
    );
    let v: serde_json::Value = serde_json::from_str(&body).expect("json");
    assert_eq!(v["code"], "nonce_mismatch");
    let row = readiness_reject_row(12, "export", "ab", Some(&[0x1f; 32]), ReadinessCode::BindingMismatch, "h");
    assert_eq!(row.at_height, 12);
    assert_eq!(row.kind, "rejected:export_readiness:export");
    assert_eq!(row.tx_id, "ab");
    assert_eq!(row.export_id.as_deref(), Some("1f".repeat(32).as_str()));
    assert_eq!(row.intent_id, row.export_id);
    assert_eq!(row.note.as_deref(), Some("code=binding_mismatch; hint=h"));
    let plain = readiness_reject_row(3, "transfer", "cd", None, ReadinessCode::StalePreflight, "");
    assert!(plain.export_id.is_none() && plain.intent_id.is_none());
    let mut rows = vec![flow("accepted:export", None)];
    rows.push(row);
    assert_eq!(latest_readiness_reject(&rows), Some(ReadinessCode::BindingMismatch));
    let page = FlowTraceOut { rows };
    assert_eq!(page.rows.len(), 2);
}

#[test]
fn roaming_requests_need_export_body() {
    assert_eq!(require_export_body(ExportRequest::Readiness, true), Ok(()));
    assert_eq!(
        require_export_body(ExportRequest::Readiness, false),
        Err((400, "export readiness requires export tx body".to_string()))
    );
    assert_eq!(
        require_export_body(ExportRequest::CreateIntent, false),
        Err((400, "roaming intent create requires export tx body".to_string()))
    );
}
