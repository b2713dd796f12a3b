use pwmd::api::CrossShardFactOut;
use pwmd::backfill::{
    backfill_peers, backfill_window, check_peer_status, file_backfill_fact, peer_base_from_input,
    str_contains, BackfillIn, BackfillOut, ImportTally, PeerBaseError, PeerIp, PeerStatusObs,
    RelayPeer,
};
use pwmd::ledger::{CrossShardLedger, CrossShardStatus};

fn relay(ip: [u8; 4], port: u16) -> RelayPeer {
    RelayPeer {
        ip: PeerIp::V4(ip),
        port,
        flowinfo: 0,
        scope_id: 0,
        display: format!("{}.{}.{}.{}:{}", ip[0], ip[1], ip[2], ip[3], port),
    }
}

fn allowed_set() -> Vec<RelayPeer> {
    vec![relay([1, 2, 3, 4], 8080)]
}

#[test]
fn valid_bare_ip_origin_accepted() {
    let res = peer_base_from_input("http://1.2.3.4:8080/", &allowed_set());
    assert!(res.is_ok(), "expected ok, got {res:?}");
    assert_eq!(res.unwrap(), "http://1.2.3.4:8080");
}

#[test]
fn domain_host_rejected() {
    let res = peer_base_from_input("http://example.com:8080/", &allowed_set());
    assert!(res.is_err());
    assert_eq!(res, Err(PeerBaseError::DomainHost));
}

#[test]
fn loopback_ip_rejected() {
    let res = peer_base_from_input("http://127.0.0.1:8080/", &allowed_set());
    assert!(res.is_err());
    assert_eq!(res, Err(PeerBaseError::Loopback));
}

#[test]
fn localhost_name_rejected() {
    let res = peer_base_from_input("http://localhost:8080/", &allowed_set());
    assert!(res.is_err());
    assert_eq!(res, Err(PeerBaseError::Loopback));
}

#[test]
fn ip_not_in_allowed_set_rejected() {
    let res = peer_base_from_input("http://9.9.9.9:8080/", &allowed_set());
    assert!(res.is_err());
    assert_eq!(res, Err(PeerBaseError::NotRelayPeer));
}

#[test]
fn path_with_segment_rejected() {
    let allowed = vec![relay([1, 2, 3, 4], 8080)];
    let res = peer_base_from_input("http://1.2.3.4:8080/api", &allowed);
    assert!(res.is_err());
    assert_eq!(res, Err(PeerBaseError::NotBareOrigin));
}

#[test]
fn query_string_rejected() {
    let allowed = vec![relay([1, 2, 3, 4], 8080)];
    let res = peer_base_from_input("http://1.2.3.4:8080/?x=1", &allowed);
    assert!(res.is_err());
}

#[test]
fn peer_base_other_refusals() {
    let err = peer_base_from_input("not a url", &allowed_set()).unwrap_err();
    assert!(err.message().starts_with("invalid peer_base URL: "));
    assert_eq!(
        peer_base_from_input("ftp://1.2.3.4:8080/", &allowed_set()),
        Err(PeerBaseError::Scheme)
    );
    assert_eq!(
        peer_base_from_input("http://[::1]:8080/", &allowed_set()),
        Err(PeerBaseError::Loopback)
    );
    assert_eq!(
        peer_base_from_input("http://1.2.3.4/", &allowed_set()),
        Err(PeerBaseError::NotRelayPeer)
    );
    assert_eq!(
        PeerBaseError::NotRelayPeer.message(),
        "peer_base is not in the configured relay peer set"
    );
}

#[test]
fn peer_base_default_port_and_trim() {
    let allowed = vec![relay([1, 2, 3, 4], 80), relay([5, 6, 7, 8], 443)];
    assert_eq!(
        peer_base_from_input("  http://1.2.3.4/ ", &allowed),
        Ok("http://1.2.3.4:80".to_string())
    );
    assert_eq!(
        peer_base_from_input("https://5.6.7.8", &allowed),
        Ok("https://5.6.7.8:443".to_string())
    );
}

#[test]
fn peer_base_ipv6_peer() {
    let allowed = vec![RelayPeer {
        ip: PeerIp::V6([0x2001, 0xdb8, 0, 0, 0, 0, 0, 7]),
        port: 9000,
        flowinfo: 0,
        scope_id: 0,
        display: "[2001:db8::7]:9000".to_string(),
    }];
    assert_eq!(
        peer_base_from_input("http://[2001:db8::7]:9000/", &allowed),
        Ok("http://[2001:db8::7]:9000".to_string())
    );
}

#[test]
fn backfill_peers_sorted_without_repeats() {
    let relays = vec![
        relay([9, 9, 9, 9], 80),
        relay([1, 2, 3, 4], 8080),
        relay([9, 9, 9, 9], 80),
        relay([1, 2, 3, 4], 7070),
    ];
    let peers = backfill_peers(None, &relays).unwrap();
    assert_eq!(
        peers,
        vec![
            "http://1.2.3.4:7070".to_string(),
            "http://1.2.3.4:8080".to_string(),
            "http://9.9.9.9:80".to_string(),
        ]
    );
    let named = backfill_peers(Some("http://1.2.3.4:8080/".to_string()), &relays).unwrap();
    assert_eq!(named, vec!["http://1.2.3.4:8080".to_string()]);
    assert_eq!(
        backfill_peers(Some("http://8.8.8.8:1/".to_string()), &relays),
        Err(PeerBaseError::NotRelayPeer)
    );
    assert!(backfill_peers(None, &vec![]).unwrap().is_empty());
}

fn status(ready: bool, network: Option<&str>, genesis: Option<&str>, guard: Option<&str>) -> PeerStatusObs {
    PeerStatusObs {
        ready,
        network_id: network.map(|s| s.to_string()),
        effective_genesis_hash: genesis.map(|s| s.to_string()),
        genesis_guard: guard.map(|s| s.to_string()),
    }
}

#[test]
fn peer_status_trust_checks() {
    let base = "http://1.2.3.4:8080";
    assert_eq!(
        check_peer_status(base, &status(true, Some("net"), Some("gh"), None), "net", Some("gh")),
        Ok(())
    );
    assert_eq!(
        check_peer_status(base, &status(false, Some("net"), None, None), "net", None),
        Err("peer http://1.2.3.4:8080 not ready".to_string())
    );
    assert_eq!(
        check_peer_status(base, &status(true, Some("net"), None, Some("blocked")), "net", None),
        Err("peer http://1.2.3.4:8080 genesis_guard blocked".to_string())
    );
    assert_eq!(
        check_peer_status(base, &status(true, Some("other"), None, Some("ok")), "net", None),
        Err("peer http://1.2.3.4:8080 network mismatch Some(\"other\") != net".to_string())
    );
    assert_eq!(
        check_peer_status(base, &status(true, None, None, None), "net", None),
        Err("peer http://1.2.3.4:8080 network mismatch None != net".to_string())
    );
    assert_eq!(
        check_peer_status(base, &status(true, Some("net"), Some("x"), None), "net", Some("gh")),
        Err("peer http://1.2.3.4:8080 genesis mismatch Some(\"x\") != gh".to_string())
    );
    assert_eq!(
        check_peer_status(base, &status(true, Some("net"), None, None), "net", None),
        Ok(())
    );
}

fn offered(target_hi: u8, source: Option<&str>) -> CrossShardFactOut {
    CrossShardFactOut {
        export_id: "ab".repeat(32),
        source_domain_hi: 0x10,
        target_domain_hi: target_hi,
        amount: 42,
        status: CrossShardStatus::Exported,
        first_height: 3,
        last_height: 3,
        source: source.map(|s| s.to_string()),
        to: "20".repeat(32),
        intent_id: None,
    }
}

#[test]
fn backfill_files_offered_fact() {
    let mut ledger = CrossShardLedger::new();
    let ids = file_backfill_fact(&mut ledger, &offered(0x20, Some(&"11".repeat(32))), 0x20, 12);
    assert_eq!(ids, Some(([0xAB; 32], [0x20; 32])));
    let fact = ledger.fact(&[0xAB; 32]).unwrap();
    assert_eq!(fact.status, CrossShardStatus::Registered);
    assert_eq!(fact.target_domain_hi, 0x20);
    assert_eq!(fact.source, Some([0x11; 32]));
    assert_eq!(fact.first_height, 12);
    assert_eq!(fact.intent_id, None);
}

#[test]
fn backfill_skips_unfileable_facts() {
    let mut ledger = CrossShardLedger::new();
    assert_eq!(file_backfill_fact(&mut ledger, &offered(0x30, Some(&"11".repeat(32))), 0x20, 1), None);
    assert_eq!(file_backfill_fact(&mut ledger, &offered(0x20, None), 0x20, 1), None);
    assert_eq!(file_backfill_fact(&mut ledger, &offered(0x20, Some("11")), 0x20, 1), None);
    let mut bad = offered(0x20, Some(&"11".repeat(32)));
    bad.to = "zz".to_string();
    assert_eq!(file_backfill_fact(&mut ledger, &bad, 0x20, 1), None);
    assert_eq!(ledger.len(), 0);
}

#[test]
fn backfill_import_tally() {
    let fact = offered(0x20, Some(&"11".repeat(32)));
    let mut out = BackfillOut::new();
    assert_eq!(out.note_import(Ok(()), "duplicate import", &fact, 0x2001), ImportTally::Imported);
    assert_eq!(
        out.note_import(Err((409, "tx: duplicate import of export".to_string())), "duplicate import", &fact, 0x2001),
        ImportTally::SkippedExisting
    );
    assert_eq!(
        out.note_import(Err((409, "export already consumed".to_string())), "duplicate import", &fact, 0x2001),
        ImportTally::SkippedExisting
    );
    assert_eq!(
        out.note_import(Err((400, "bad nonce".to_string())), "duplicate import", &fact, 0x2001),
        ImportTally::Rejected
    );
    assert_eq!(out.imported, 1);
    assert_eq!(out.skipped_existing, 2);
    assert_eq!(out.rejected, 1);
    assert_eq!(
        out.details,
        vec![format!(
            "bad nonce; export_id={}; tx_domain=0x2001; target_hi=0x20; to={}",
            "ab".repeat(32),
            "20".repeat(32)
        )]
    );
    out.note_untrusted("peer x not ready".to_string());
    out.note_rejected("peer facts fetch failed".to_string());
    out.note_unfileable();
    assert_eq!(out.untrusted, 1);
    assert_eq!(out.rejected, 3);
    assert_eq!(out.details.len(), 3);
}

#[test]
fn backfill_request_window() {
    let w = backfill_window(&BackfillIn { from_height: None, limit: None, peer_base: None });
    assert_eq!(w, (0, 256));
    let w = backfill_window(&BackfillIn { from_height: Some(9), limit: Some(0), peer_base: None });
    assert_eq!(w, (9, 1));
    let w = backfill_window(&BackfillIn { from_height: None, limit: Some(99_999), peer_base: None });
    assert_eq!(w, (0, 4096));
}

#[test]
fn text_contains() {
    assert!(str_contains("abcdef", "cde"));
    assert!(str_contains("abc", ""));
    assert!(!str_contains("abc", "abcd"));
    assert!(!str_contains("abcabd", "abe"));
}
