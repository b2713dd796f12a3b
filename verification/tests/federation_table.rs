use pwmd::federation::{
    fallback_shard_key, merge_gossip_rows, view_health_label, FedGossipWireRow, FedRowSource,
    FedShardRow, FederationTable, FED_TTL_MS,
};
use pwmd::api::peer_hello_out;
use pwmd::handshake::{
    ClusterRole, DeploymentProfile, NodeHello, NodeHelloCapabilities, NodeHelloCluster,
    NodeHelloNode, SealRole,
};

fn row(shard: &str, h: u64, seen: u64, src: FedRowSource, node: &str) -> FedShardRow {
    FedShardRow {
        shard_id: shard.to_string(),
        latest_height: h,
        last_seen_unix_ms: seen,
        source: src,
        source_node_id: node.to_string(),
    }
}

fn hello_stub(shard_lbl: &str, node: &str, height: u64) -> NodeHello {
    NodeHello {
        network_id: "n".into(),
        genesis_hash: None,
        cluster: NodeHelloCluster {
            domain_hi: 1,
            cluster_id: "c".into(),
        },
        node: NodeHelloNode {
            node_id: node.into(),
            pubkey: [0u8; 32],
        },
        capabilities: NodeHelloCapabilities {
            protocol_version: "0.1.0".into(),
            tx_features: vec!["t".into()],
            services: vec!["s".into()],
            sync_profile: None,
            deployment_profile: DeploymentProfile::SingleSealer,
            seal_role: SealRole::Active,
            validator_identity_hash: Some("vh-federation".into()),
            node_instance_id: Some("inst-federation".into()),
            lease_owner_id: None,
            lease_term: None,
            lease_expires_at_ms: None,
            lease_last_tip: None,
            lease_fence: None,
            cluster_attest_enabled: false,
            cluster_role: ClusterRole::NoRole,
            cluster_members: Vec::new(),
            cluster_quorum_k: None,
            cluster_quorum_n: None,
        },
        nonce: vec![1],
        timestamp_ms: 0,
        signature: vec![0u8; 64],
        chain_tip_height: Some(height),
        federation_shard_id: Some(shard_lbl.into()),
        bridge_commitment: None,
    }
}

#[test]
fn fed_merge_seen_mono() {
    let mut t = FederationTable::new();
    t.merge_row(row("A", 5, 100, FedRowSource::Hello, "n1"));
    t.merge_row(row("A", 10, 200, FedRowSource::Heartbeat, "n2"));
    let r = t.get("A").expect("row");
    assert_eq!(r.latest_height, 10);
    assert_eq!(r.last_seen_unix_ms, 200);
    assert_eq!(r.source, FedRowSource::Heartbeat);

    t.merge_row(row("A", 10, 150, FedRowSource::Hello, "n3"));
    let r = t.get("A").expect("row");
    assert_eq!(r.latest_height, 10);
    assert_eq!(r.last_seen_unix_ms, 200);

    t.merge_row(row("A", 8, 300, FedRowSource::Hello, "n4"));
    let r = t.get("A").expect("row");
    assert_eq!(r.latest_height, 10);
    assert_eq!(r.last_seen_unix_ms, 300);
    assert_eq!(r.source, FedRowSource::Hello);
}

#[test]
fn merge_twice_same_as_once() {
    let mut t = FederationTable::new();
    t.merge_row(row("A", 7, 100, FedRowSource::Status, "n1"));
    t.merge_row(row("A", 5, 300, FedRowSource::Gossip, "n2"));
    let once = t.get("A").expect("row").clone();
    t.merge_row(row("A", 5, 300, FedRowSource::Gossip, "n2"));
    assert_eq!(t.get("A").expect("row"), &once);
    assert_eq!(once.latest_height, 7);
    assert_eq!(once.last_seen_unix_ms, 300);
    assert_eq!(once.source_node_id, "n2");
}

#[test]
fn sweep_drops_expired() {
    let mut t = FederationTable::new();
    t.merge_row(row("A", 1, 1_000, FedRowSource::Status, "local"));
    t.sweep_expired(1_000 + FED_TTL_MS);
    assert!(t.is_empty());
}

#[test]
fn sweep_keeps_fresh_rows() {
    let mut t = FederationTable::new();
    t.merge_row(row("A", 1, 1_000, FedRowSource::Status, "local"));
    t.merge_row(row("B", 1, 30_000, FedRowSource::Hello, "peer"));
    t.sweep_expired(1_000 + FED_TTL_MS);
    assert_eq!(t.len(), 1);
    assert!(t.get("A").is_none());
    assert!(t.get("B").is_some());
}

#[test]
fn view_health_semantics() {
    let mut t = FederationTable::new();
    let now = 10_000u64;
    t.merge_row(row("A", 1, now, FedRowSource::Status, "x"));
    let v = t.build_http_view(now, Some(2));
    assert_eq!(v.view_health, "partial");
    assert_eq!(v.active_shard_count, 1);
    assert_eq!(v.stale_shard_count, 0);

    let v2 = t.build_http_view(now, Some(1));
    assert_eq!(v2.view_health, "complete");

    let mut t2 = FederationTable::new();
    let expired_seen = 1_000u64;
    t2.merge_row(row("B", 1, expired_seen, FedRowSource::Hello, "y"));
    let now = expired_seen + FED_TTL_MS + 1;
    let v3 = t2.build_http_view(now, None);
    assert_eq!(v3.stale_shard_count, 1);
    assert_eq!(v3.view_health, "stale");
}

#[test]
fn http_view_rows_sorted_by_label() {
    let mut t = FederationTable::new();
    t.merge_row(row("zeta", 1, 5_000, FedRowSource::Status, "x"));
    t.merge_row(row("Alpha", 2, 5_000, FedRowSource::Hello, "y"));
    t.merge_row(row("beta", 3, 5_000, FedRowSource::Gossip, "z"));
    let v = t.build_http_view(6_000, None);
    let ids: Vec<&str> = v.rows.iter().map(|r| r.shard_id.as_str()).collect();
    assert_eq!(ids, vec!["Alpha", "beta", "zeta"]);
    assert_eq!(v.rows[0].expires_at_unix_ms, 5_000 + FED_TTL_MS);
    assert_eq!(v.rows[1].source, "gossip");
    assert!(v.rows.iter().all(|r| r.fresh && r.ttl_sec == 60));
    assert_eq!(v.view_health, "complete");
}

#[test]
fn view_health_label_cases() {
    assert_eq!(view_health_label(None, 0, 0), "partial");
    assert_eq!(view_health_label(None, 3, 0), "complete");
    assert_eq!(view_health_label(Some(3), 3, 1), "stale");
    assert_eq!(view_health_label(Some(4), 3, 0), "partial");
}

#[test]
fn fallback_shard_key_maps_cluster() {
    let mut h = hello_stub("explicit", "nid", 3);
    h.federation_shard_id = None;
    assert!(fallback_shard_key(&h).contains("c:"));
}

#[test]
fn fallback_shard_key_exact_form() {
    let mut h = hello_stub("explicit", "nid", 3);
    h.cluster.domain_hi = 0xAB;
    assert_eq!(fallback_shard_key(&h), "c:0xab");
}

#[test]
fn hello_merge_uses_announced_or_fallback_shard() {
    let mut t = FederationTable::new();
    t.merge_remote_hello(&hello_stub("explicit", "nid", 3), 500);
    let r = t.get("explicit").expect("row");
    assert_eq!((r.latest_height, r.source), (3, FedRowSource::Hello));
    let mut h = hello_stub("explicit", "nid2", 9);
    h.federation_shard_id = None;
    t.merge_remote_hello(&h, 600);
    assert_eq!(t.get("c:0x01").expect("fallback row").latest_height, 9);
    let mut none = hello_stub("other", "nid3", 1);
    none.chain_tip_height = None;
    t.merge_remote_hello(&none, 700);
    assert!(t.get("other").is_none());
}

#[test]
fn untrusted_heartbeat_changes_nothing() {
    let mut t = FederationTable::new();
    let h = hello_stub("S", "peer", 4);
    let gossip = vec![FedGossipWireRow {
        shard_id: "G".into(),
        latest_height: 2,
        last_seen_unix_ms: 10,
        source_node_id: "far".into(),
    }];
    t.merge_remote_hb(false, &h, "peer", 100, Some(4), None, Some(gossip.clone()));
    assert!(t.is_empty());
    t.merge_remote_hb(true, &h, "peer", 100, Some(4), Some("HB".into()), Some(gossip));
    assert_eq!(t.get("HB").expect("hb row").source, FedRowSource::Heartbeat);
    assert_eq!(t.get("G").expect("gossip row").source, FedRowSource::Gossip);
}

#[test]
fn gossip_via_relay_shard() {
    let mut mid = FederationTable::new();
    mid.merge_row(row("SHARD_X", 42, 1_000, FedRowSource::Hello, "carrier"));
    mid.merge_row(row("MID_LOCAL", 3, 1_100, FedRowSource::Status, "mid_node"));
    let relay = mid.gossip_wire_rows(2_000);
    assert!(
        relay.iter().any(|r| r.shard_id == "SHARD_X"),
        "gossip pack must include foreign shard row"
    );

    let mut observer = FederationTable::new();
    observer.merge_row(row("OBS", 1, 2_000, FedRowSource::Status, "observer"));
    merge_gossip_rows(&mut observer, relay);

    let r = observer.get("SHARD_X").expect("indirect shard visible");
    assert_eq!(r.latest_height, 42);
    assert_eq!(r.source_node_id, "carrier");
    assert_eq!(r.source, FedRowSource::Gossip);
}

#[test]
fn gossip_pack_freshest_first_and_skips_expired() {
    let mut t = FederationTable::new();
    t.merge_row(row("old", 1, 1_000, FedRowSource::Hello, "a"));
    t.merge_row(row("mid", 1, 50_000, FedRowSource::Hello, "b"));
    t.merge_row(row("new", 1, 60_000, FedRowSource::Hello, "c"));
    let pack = t.gossip_wire_rows(61_000);
    let ids: Vec<&str> = pack.iter().map(|r| r.shard_id.as_str()).collect();
    assert_eq!(ids, vec!["new", "mid"]);
}

#[test]
fn gossip_pack_respects_row_and_byte_budget() {
    let mut t = FederationTable::new();
    for i in 0..40u64 {
        t.merge_row(row(&format!("s{i:02}"), i, 1_000 + i, FedRowSource::Status, "n"));
    }
    assert_eq!(t.gossip_wire_rows(2_000).len(), 32);

    let mut big = FederationTable::new();
    let long = "x".repeat(1_900);
    big.merge_row(row(&format!("a{long}"), 1, 1_003, FedRowSource::Status, "n"));
    big.merge_row(row(&format!("b{long}"), 1, 1_002, FedRowSource::Status, "n"));
    big.merge_row(row(&format!("c{long}"), 1, 1_001, FedRowSource::Status, "n"));
    let pack = big.gossip_wire_rows(2_000);
    assert_eq!(pack.len(), 2);
    assert!(pack[0].shard_id.starts_with('a'));

    let mut huge = FederationTable::new();
    let very_long = "y".repeat(5_000);
    huge.merge_row(row(&very_long, 1, 1_000, FedRowSource::Status, "n"));
    huge.merge_row(row("tiny", 1, 999, FedRowSource::Status, "n"));
    let pack = huge.gossip_wire_rows(2_000);
    assert_eq!(pack.len(), 1);
}

#[test]
fn inbound_gossip_filters_bad_rows() {
    let mut t = FederationTable::new();
    let rows = vec![
        FedGossipWireRow {
            shard_id: String::new(),
            latest_height: 1,
            last_seen_unix_ms: 1,
            source_node_id: "n".into(),
        },
        FedGossipWireRow {
            shard_id: "z".repeat(129),
            latest_height: 1,
            last_seen_unix_ms: 1,
            source_node_id: "n".into(),
        },
        FedGossipWireRow {
            shard_id: "ok".into(),
            latest_height: 1,
            last_seen_unix_ms: 1,
            source_node_id: "q".repeat(257),
        },
        FedGossipWireRow {
            shard_id: "good".into(),
            latest_height: 7,
            last_seen_unix_ms: 1,
            source_node_id: "src".into(),
        },
    ];
    merge_gossip_rows(&mut t, rows);
    assert_eq!(t.len(), 1);
    assert_eq!(t.get("good").expect("good").latest_height, 7);
}

#[test]
fn http_snapshot_merges_local_then_sweeps() {
    let mut t = FederationTable::new();
    t.merge_row(row("old", 1, 1_000, FedRowSource::Hello, "a"));
    let out = t.http_snapshot(row("LOCAL", 9, 100_000, FedRowSource::Status, "me"), 100_000);
    assert_eq!(out.active_shard_count, 1);
    assert_eq!(out.stale_shard_count, 1);
    assert_eq!(out.view_health, "stale");
    assert_eq!(t.len(), 1);
    assert!(t.get("LOCAL").is_some());
}

#[test]
fn peer_hello_answer_carries_class_only_when_accepted() {
    let ok = peer_hello_out::<&str>(Ok("seed"), hello_stub("a", "local", 3));
    assert!(ok.accepted);
    assert_eq!(ok.class, Some("seed"));
    assert!(ok.reason.is_none());
    assert_eq!(ok.node_hello.expect("hello").node.node_id, "local");
    let no = peer_hello_out::<&str>(Err("replay".to_string()), hello_stub("a", "local", 3));
    assert!(!no.accepted);
    assert_eq!(no.reason.as_deref(), Some("replay"));
    assert!(no.class.is_none() && no.node_hello.is_none());
}
