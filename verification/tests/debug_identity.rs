use pwmd::debug_dump::{align_mid_on, dump_admission, dump_dir, dump_path, mid_wait_ms, DumpWrite};
use pwmd::identity::{
    neutral_listen_dir_tag, parse_cluster_domain_hi, resolve_runtime_identity,
    runtime_shard_label, default_runtime_identity_neutral, storage_namespace, RuntimeIdentity,
    RuntimeIdentityInput, RuntimeIdentityMode, ShardId,
};

#[test]
fn dump_path_uses_b_height() {
    assert_eq!(dump_path("state/blocks", 42), "state/blocks/b42.json");
}

#[test]
fn dump_path_edge_bases() {
    assert_eq!(dump_path("", 7), "b7.json");
    assert_eq!(dump_path("dir/", 0), "dir/b0.json");
}

#[test]
fn mid_wait_stays_bounded() {
    assert_eq!(mid_wait_ms(1_000), 500);
    assert_eq!(mid_wait_ms(1_490), 10);
    assert_eq!(mid_wait_ms(1_800), 700);
}

#[test]
fn mid_wait_skips_long_waits() {
    assert_eq!(mid_wait_ms(1_600), 0);
    assert_eq!(mid_wait_ms(1_500), 0);
    assert_eq!(mid_wait_ms(1_750), 750);
}

#[test]
fn align_det_wins_over_mid() {
    assert!(align_mid_on(true, false));
    assert!(!align_mid_on(true, true));
    assert!(!align_mid_on(false, false));
}

#[test]
fn dump_dir_choices() {
    assert_eq!(dump_dir(Some("/tmp/d"), Some("x")), "/tmp/d");
    assert_eq!(dump_dir(None, Some("data")), "data/blocks");
    assert_eq!(dump_dir(None, None), "state/blocks");
}

#[test]
fn dump_admission_cases() {
    assert_eq!(dump_admission(false, 4, 0), Some(DumpWrite::Off));
    assert_eq!(dump_admission(true, 4, 4), Some(DumpWrite::CapReached));
    assert_eq!(dump_admission(true, 0, 1), Some(DumpWrite::CapReached));
    assert_eq!(dump_admission(true, 4, 3), None);
}

#[test]
fn shard_labels_by_mode() {
    let neutral = default_runtime_identity_neutral();
    assert_eq!(runtime_shard_label(&neutral, ShardId::A, Some("x")), "neutral");
    let explicit = RuntimeIdentity {
        network_id: "n".into(),
        cluster_domain_hi: 0x1f,
        cluster_id: "c".into(),
        node_id: "node".into(),
        mode: RuntimeIdentityMode::Explicit,
    };
    assert_eq!(runtime_shard_label(&explicit, ShardId::A, None), "0x1F");
    assert_eq!(runtime_shard_label(&explicit, ShardId::A, Some("EU")), "EU");
    let alias = RuntimeIdentity { mode: RuntimeIdentityMode::Alias { shard: ShardId::B }, ..explicit };
    assert_eq!(runtime_shard_label(&alias, ShardId::B, None), "B");
}

#[test]
fn listen_tag_replaces_colons() {
    assert_eq!(neutral_listen_dir_tag("127.0.0.1:7000"), "127.0.0.1+7000");
    assert_eq!(neutral_listen_dir_tag("[::1]:80"), "[++1]+80");
}

#[test]
fn domain_hi_parse_forms() {
    assert_eq!(parse_cluster_domain_hi("0x10").expect("hex"), 0x10);
    assert_eq!(parse_cluster_domain_hi("16").expect("dec"), 16);
    assert!(parse_cluster_domain_hi("256").is_err());
    assert!(parse_cluster_domain_hi("zz").is_err());
}

#[test]
fn storage_namespaces() {
    assert_eq!(storage_namespace(&default_runtime_identity_neutral()), "neutral");
    let id = resolve_runtime_identity(
        ShardId::A,
        RuntimeIdentityInput {
            network_id: Some("net".into()),
            cluster_domain_hi: Some(0x2a),
            cluster_id: Some("c".into()),
            node_id: Some("n".into()),
        },
    )
    .expect("explicit identity");
    assert_eq!(storage_namespace(&id), "domain-hi-0x2a");
}

#[test]
fn partial_identity_input_is_rejected() {
    let err = resolve_runtime_identity(
        ShardId::A,
        RuntimeIdentityInput {
            network_id: Some("net".into()),
            cluster_domain_hi: None,
            cluster_id: None,
            node_id: None,
        },
    )
    .expect_err("partial");
    assert!(err.contains("cluster_domain_hi"));
}

#[test]
fn runtime_mode_labels() {
    assert_eq!(RuntimeIdentityMode::Explicit.as_runtime_label(), "shard_enforced");
    assert_eq!(RuntimeIdentityMode::Neutral.as_runtime_label(), "relay_baseline");
}
