use pwmd::accounts::{
    account_home_state, acct_out_for_runtime, foreign_home_lookup_state, AccountView,
    HomeLookupState, PeerAccountView, TrustedHomePeer,
};
use pwmd::status::{ensure_bridge_federation_ok, ensure_ready, ensure_user_tx_allowed};

fn account(balance: u128) -> AccountView {
    AccountView {
        balance_pwm: balance,
        staked: 7,
        marks: 3,
        marks_last_block: 11,
        initialized: true,
        nonce: 4,
        rescue_address: Some([0xEE; 32]),
        active_policies: 1,
        dormant_policies: 0,
        finalized: false,
        owner_kind: "person".to_string(),
        owner_display_name: "Ann".to_string(),
        owner_country_hint: "NL".to_string(),
        company_metadata_commitment: None,
        external_verification_ref: Some("kyc-1".to_string()),
        requested_domain_lo: Some(2),
        ipv4_claimed_phase: None,
    }
}

fn peer(node: &str, hi: u8, live: bool, last: Option<u64>) -> TrustedHomePeer {
    TrustedHomePeer {
        node_id: node.to_string(),
        domain_hi: hi,
        live,
        stream_last_update_ms: last,
    }
}

#[test]
fn local_account_is_spendable() {
    let out = acct_out_for_runtime(&[0x10; 32], 0x10, &account(500), 0x10, None, HomeLookupState::Available);
    assert_eq!(out.id, "10".repeat(32));
    assert_eq!(out.balance_pwm, "500");
    assert_eq!(out.local_state_balance, "500");
    assert_eq!(out.spendable_on_this_shard.as_deref(), Some("500"));
    assert!(!out.local_view_only);
    assert_eq!(out.home_lookup_status, Some("local"));
    assert_eq!(out.authoritative_home_balance, None);
    assert_eq!(out.staked, "7");
    assert_eq!(out.rescue_address, Some("ee".repeat(32)));
    assert_eq!(out.company_metadata_commitment, None);
    assert_eq!(out.external_verification_ref.as_deref(), Some("kyc-1"));
    assert_eq!(out.marks_last_block, 11);
}

#[test]
fn foreign_account_shows_home_view() {
    let view = PeerAccountView {
        balance_pwm: 900,
        initialized: true,
        source_node_id: "home-1".to_string(),
    };
    let out = acct_out_for_runtime(&[0x20; 32], 0x20, &account(500), 0x10, Some(&view), HomeLookupState::Available);
    assert_eq!(out.balance_pwm, "0");
    assert_eq!(out.local_state_balance, "500");
    assert!(out.local_view_only);
    assert_eq!(out.spendable_on_this_shard, None);
    assert_eq!(out.authoritative_home_balance.as_deref(), Some("900"));
    assert_eq!(out.authoritative_home_initialized, Some(true));
    assert_eq!(out.home_lookup_status, Some("ok"));
    let out = acct_out_for_runtime(&[0x20; 32], 0x20, &account(500), 0x10, None, HomeLookupState::Available);
    assert_eq!(out.home_lookup_status, Some("unavailable"));
    let out = acct_out_for_runtime(&[0x20; 32], 0x20, &account(500), 0x10, Some(&view), HomeLookupState::Stale);
    assert_eq!(out.home_lookup_status, Some("stale"));
    assert_eq!(out.authoritative_home_balance, None);
    let out = acct_out_for_runtime(&[0x20; 32], 0x20, &account(500), 0x10, None, HomeLookupState::NotFound);
    assert_eq!(out.home_lookup_status, Some("not_found"));
}

#[test]
fn home_lookup_states() {
    let peers = vec![
        peer("home-1", 0x20, true, Some(1_000)),
        peer("home-2", 0x20, true, Some(100)),
        peer("other", 0x30, true, Some(1_000)),
    ];
    assert_eq!(
        foreign_home_lookup_state(false, 0x20, true, Some("home-1"), 1_200, 500, &peers),
        HomeLookupState::Available
    );
    assert_eq!(
        foreign_home_lookup_state(false, 0x20, false, None, 1_200, 500, &peers),
        HomeLookupState::NotFound
    );
    assert_eq!(
        foreign_home_lookup_state(false, 0x20, true, Some("home-2"), 1_200, 500, &peers),
        HomeLookupState::Stale
    );
    assert_eq!(
        foreign_home_lookup_state(true, 0x20, true, Some("home-1"), 1_200, 500, &peers),
        HomeLookupState::Unavailable
    );
    assert_eq!(
        foreign_home_lookup_state(false, 0x40, false, None, 1_200, 500, &peers),
        HomeLookupState::Unavailable
    );
    let quiet = vec![peer("home-1", 0x20, true, None), peer("home-3", 0x20, false, Some(1_200))];
    assert_eq!(
        foreign_home_lookup_state(false, 0x20, true, Some("home-3"), 1_200, 500, &quiet),
        HomeLookupState::Unavailable
    );
    assert_eq!(
        account_home_state(0x10, 0x10, true, false, None, 0, 0, &vec![]),
        HomeLookupState::Available
    );
}

#[test]
fn request_admission() {
    assert_eq!(ensure_ready(true, "ready"), Ok(()));
    assert_eq!(
        ensure_ready(false, "loading_snapshot"),
        Err((503, "node is not ready (phase=loading_snapshot)".to_string()))
    );
    let (code, msg) = ensure_user_tx_allowed(true, "ready_degraded", true, false).unwrap_err();
    assert_eq!(code, 503);
    assert!(msg.starts_with("user tx blocked: snapshot persistence is degraded"));
    let (code, msg) = ensure_user_tx_allowed(true, "ready", false, true).unwrap_err();
    assert_eq!(code, 503);
    assert!(msg.starts_with("user tx blocked: genesis/hash mismatch"));
    assert_eq!(ensure_user_tx_allowed(true, "ready", false, false), Ok(()));
    assert_eq!(
        ensure_user_tx_allowed(false, "starting", true, true),
        Err((503, "node is not ready (phase=starting)".to_string()))
    );
    assert_eq!(ensure_bridge_federation_ok(false, &None), Ok(()));
    assert_eq!(
        ensure_bridge_federation_ok(true, &None),
        Err((409, "bridge_federation_trust_refused".to_string()))
    );
    assert_eq!(
        ensure_bridge_federation_ok(true, &Some("commitment mismatch".to_string())),
        Err((409, "commitment mismatch".to_string()))
    );
}
