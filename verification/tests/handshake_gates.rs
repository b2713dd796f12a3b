use ed25519_dalek::SigningKey;
use pwmd::handshake::{
    protocol_compat, validate_node_hello, ClusterRole, DeploymentProfile, HandshakeRejectReason,
    HandshakeValidationCtx, NodeHello, NodeHelloCapabilities, NodeHelloCluster, NodeHelloNode,
    NodeHelloSyncProfile, ProtocolCompat, ProtocolVersion, ReplayNonceCache, SealRole, SyncMode,
    PWM_PROTOCOL_VERSION, REASON_LABEL_ACTIVE_CONFLICT, REASON_LABEL_BAD_SIGNATURE,
    REASON_LABEL_GENESIS_MISMATCH, REASON_LABEL_MALFORMED, REASON_LABEL_NETWORK_MISMATCH,
    REASON_LABEL_PROTO_BAD, REASON_LABEL_PROTO_MAJOR, REASON_LABEL_REPLAY_NONCE,
    REASON_LABEL_TIMESTAMP_SKEW, SYNC_BLK_MAX, SYNC_HDR_MAX, SYNC_TX_MAX, SYNC_WIRE_V1,
};

fn sample_hello() -> (NodeHello, SigningKey) {
    let sk = SigningKey::from_bytes(&[7u8; 32]);
    let hello = NodeHello {
        network_id: "devnet".to_string(),
        genesis_hash: Some("abc123".to_string()),
        cluster: NodeHelloCluster {
            domain_hi: 0x10,
            cluster_id: "cluster-a".to_string(),
        },
        node: NodeHelloNode {
            node_id: "node-a".to_string(),
            pubkey: sk.verifying_key().to_bytes(),
        },
        capabilities: NodeHelloCapabilities {
            protocol_version: PWM_PROTOCOL_VERSION.to_string(),
            tx_features: vec!["local_transfer_v1".to_string()],
            services: vec!["mempool".to_string(), "sync".to_string()],
            sync_profile: Some(NodeHelloSyncProfile {
                sync_wire_version: SYNC_WIRE_V1,
                max_headers_per_msg: SYNC_HDR_MAX,
                max_blocks_per_msg: SYNC_BLK_MAX,
                max_txs_per_msg: SYNC_TX_MAX,
                supports_epoch_catchup: true,
            }),
            deployment_profile: DeploymentProfile::SingleSealer,
            seal_role: SealRole::Active,
            validator_identity_hash: Some("vhash".to_string()),
            node_instance_id: Some("inst-a".to_string()),
            lease_owner_id: None,
            lease_term: None,
            lease_expires_at_ms: None,
            lease_last_tip: None,
            lease_fence: None,
            cluster_attest_enabled: false,
            cluster_role: ClusterRole::NoRole,
            cluster_members: Vec::new(),
            cluster_quorum_k: None,
            cluster_quorum_n: None,
        },
        nonce: vec![1, 2, 3, 4],
        timestamp_ms: 1000,
        signature: Vec::new(),
        chain_tip_height: None,
        federation_shard_id: None,
        bridge_commitment: None,
    };
    (hello, sk)
}

/// Stand-in for the hello's signing payload: the bytes the signature covers.
fn payload_of(hello: &NodeHello) -> Vec<u8> {
    let mut v = hello.network_id.as_bytes().to_vec();
    v.extend_from_slice(&hello.nonce);
    v.extend_from_slice(&hello.timestamp_ms.to_le_bytes());
    v
}

fn signed(hello: &mut NodeHello, sk: &SigningKey) {
    let p = payload_of(hello);
    hello.sign(sk, &p).unwrap();
}

fn ctx(net: &str, genesis: Option<&str>, skew: u64) -> HandshakeValidationCtx {
    HandshakeValidationCtx {
        expected_network_id: net.to_string(),
        expected_genesis_hash: genesis.map(|g| g.to_string()),
        skew_window_ms: skew,
    }
}

#[test]
fn hello_sign_then_verify() {
    let (mut hello, sk) = sample_hello();
    signed(&mut hello, &sk);
    assert_eq!(hello.signature.len(), 64);
    hello.verify_signature(&payload_of(&hello)).unwrap();
    assert_eq!(
        hello.verify_signature(b"other payload").unwrap_err(),
        HandshakeRejectReason::BadSignature
    );
}

#[test]
fn hello_reject_bad_sig() {
    let (mut hello, sk) = sample_hello();
    signed(&mut hello, &sk);
    hello.signature[0] ^= 0xFF;
    let mut replay = ReplayNonceCache::default();
    let p = payload_of(&hello);
    let err = validate_node_hello(&hello, &ctx("devnet", Some("abc123"), 1_000), 1000, &mut replay, &p)
        .unwrap_err();
    assert_eq!(err, HandshakeRejectReason::BadSignature);
}

#[test]
fn hello_reject_short_signature() {
    let (mut hello, _sk) = sample_hello();
    hello.signature = vec![0u8; 10];
    let p = payload_of(&hello);
    assert_eq!(
        hello.verify_signature(&p).unwrap_err(),
        HandshakeRejectReason::BadSignature
    );
}

#[test]
fn hello_reject_replay_nonce() {
    let (mut hello, sk) = sample_hello();
    signed(&mut hello, &sk);
    let c = ctx("devnet", Some("abc123"), 5_000);
    let mut replay = ReplayNonceCache::default();
    let p = payload_of(&hello);
    validate_node_hello(&hello, &c, 1000, &mut replay, &p).unwrap();
    let err = validate_node_hello(&hello, &c, 1001, &mut replay, &p).unwrap_err();
    assert_eq!(err, HandshakeRejectReason::ReplayNonce);
}

#[test]
fn hello_reject_time_skew() {
    let (mut hello, sk) = sample_hello();
    signed(&mut hello, &sk);
    let mut replay = ReplayNonceCache::default();
    let p = payload_of(&hello);
    let err = validate_node_hello(&hello, &ctx("devnet", Some("abc123"), 50), 1_000 + 500, &mut replay, &p)
        .unwrap_err();
    assert_eq!(err, HandshakeRejectReason::TimestampSkew);
}

#[test]
fn hello_reject_net_mismatch() {
    let (mut hello, sk) = sample_hello();
    signed(&mut hello, &sk);
    let mut replay = ReplayNonceCache::default();
    let p = payload_of(&hello);
    let err = validate_node_hello(&hello, &ctx("testnet-v1", Some("abc123"), 500), 1000, &mut replay, &p)
        .unwrap_err();
    assert_eq!(err, HandshakeRejectReason::NetworkMismatch);
}

#[test]
fn hello_genesis_bad() {
    let (mut hello, sk) = sample_hello();
    signed(&mut hello, &sk);
    let mut replay = ReplayNonceCache::default();
    let p = payload_of(&hello);
    let err = validate_node_hello(
        &hello,
        &ctx("devnet", Some("different-genesis"), 500),
        1000,
        &mut replay,
        &p,
    )
    .unwrap_err();
    assert_eq!(err, HandshakeRejectReason::GenesisMismatch);
}

#[test]
fn hello_skew_bound_ok() {
    let (mut hello, sk) = sample_hello();
    signed(&mut hello, &sk);
    let mut replay = ReplayNonceCache::default();
    let p = payload_of(&hello);
    validate_node_hello(&hello, &ctx("devnet", Some("abc123"), 100), 1100, &mut replay, &p).unwrap();
}

#[test]
fn nonce_ok_gap_pruned() {
    let (mut hello, sk) = sample_hello();
    let c = ctx("devnet", Some("abc123"), 100);
    let mut replay = ReplayNonceCache::default();

    hello.timestamp_ms = 1000;
    signed(&mut hello, &sk);
    let p = payload_of(&hello);
    validate_node_hello(&hello, &c, 1000, &mut replay, &p).unwrap();

    hello.timestamp_ms = 1201;
    signed(&mut hello, &sk);
    let p = payload_of(&hello);
    validate_node_hello(&hello, &c, 1201, &mut replay, &p).unwrap();
}

#[test]
fn hello_reject_malformed() {
    let (mut hello, sk) = sample_hello();
    hello.network_id = String::new();
    let p = payload_of(&hello);
    hello.sign(&sk, &p).unwrap_err();
    assert!(hello.signature.is_empty());
    hello.network_id = "devnet".to_string();
    signed(&mut hello, &sk);
    hello.capabilities.services.push("".to_string());
    let mut replay = ReplayNonceCache::default();
    let p = payload_of(&hello);
    let err = validate_node_hello(&hello, &ctx("devnet", Some("abc123"), 500), 1000, &mut replay, &p)
        .unwrap_err();
    assert_eq!(err, HandshakeRejectReason::Malformed);
}

#[test]
fn blank_member_or_instance_is_malformed() {
    let (mut hello, _sk) = sample_hello();
    hello.capabilities.node_instance_id = Some("   ".to_string());
    assert_eq!(
        hello.validate_mandatory_fields().unwrap_err(),
        HandshakeRejectReason::Malformed
    );
    let (mut hello, _sk) = sample_hello();
    hello.capabilities.cluster_members = vec!["a".to_string(), " ".to_string()];
    assert_eq!(
        hello.validate_mandatory_fields().unwrap_err(),
        HandshakeRejectReason::Malformed
    );
    let (mut hello, _sk) = sample_hello();
    hello.nonce.clear();
    assert_eq!(
        hello.validate_mandatory_fields().unwrap_err(),
        HandshakeRejectReason::Malformed
    );
}

#[test]
fn reason_labels_are_stable() {
    assert_eq!(
        HandshakeRejectReason::BadSignature.as_label(),
        REASON_LABEL_BAD_SIGNATURE
    );
    assert_eq!(
        HandshakeRejectReason::ReplayNonce.as_label(),
        REASON_LABEL_REPLAY_NONCE
    );
    assert_eq!(
        HandshakeRejectReason::NetworkMismatch.as_label(),
        REASON_LABEL_NETWORK_MISMATCH
    );
    assert_eq!(
        HandshakeRejectReason::GenesisMismatch.as_label(),
        REASON_LABEL_GENESIS_MISMATCH
    );
    assert_eq!(
        HandshakeRejectReason::TimestampSkew.as_label(),
        REASON_LABEL_TIMESTAMP_SKEW
    );
    assert_eq!(
        HandshakeRejectReason::Malformed.as_label(),
        REASON_LABEL_MALFORMED
    );
    assert_eq!(
        HandshakeRejectReason::ProtocolVersionMalformed.as_label(),
        REASON_LABEL_PROTO_BAD
    );
    assert_eq!(
        HandshakeRejectReason::ProtocolVersionMajorMismatch.as_label(),
        REASON_LABEL_PROTO_MAJOR
    );
    assert_eq!(
        REASON_LABEL_ACTIVE_CONFLICT,
        "same_validator_active_conflict"
    );
}

#[test]
fn mode_legacy_without_profile() {
    let (mut hello, _sk) = sample_hello();
    hello.capabilities.sync_profile = None;
    assert_eq!(hello.capabilities.sync_mode(), SyncMode::LegacyObserve);
}

#[test]
fn mode_full_with_valid_profile() {
    let (hello, _sk) = sample_hello();
    assert_eq!(hello.capabilities.sync_mode(), SyncMode::FullV1);
}

#[test]
fn mode_legacy_without_sync_service() {
    let (mut hello, _sk) = sample_hello();
    hello.capabilities.services = vec!["mempool".to_string()];
    assert!(!hello.capabilities.supports_sync_v1());
    assert_eq!(hello.capabilities.sync_mode(), SyncMode::LegacyObserve);
}

#[test]
fn capability_ids_are_trimmed() {
    let (mut hello, _sk) = sample_hello();
    hello.capabilities.validator_identity_hash = Some("  vh-1 ".to_string());
    hello.capabilities.lease_owner_id = Some("   ".to_string());
    assert_eq!(hello.capabilities.validator_hash(), Some("vh-1"));
    assert_eq!(hello.capabilities.node_instance_id(), Some("inst-a"));
    assert_eq!(hello.capabilities.lease_owner_id(), None);
}

#[test]
fn parse_proto_ok() {
    let got = ProtocolVersion::parse("1.2.3").expect("must parse semver");
    assert_eq!(got.major, 1);
    assert_eq!(got.minor, 2);
    assert_eq!(got.patch, 3);
}

#[test]
fn parse_proto_bad() {
    let err = ProtocolVersion::parse("1.2").expect_err("must reject malformed semver");
    assert_eq!(err, HandshakeRejectReason::ProtocolVersionMalformed);
}

#[test]
fn parse_proto_rejects_signs_and_extra_parts() {
    assert!(ProtocolVersion::parse("1.2.3.4").is_err());
    assert!(ProtocolVersion::parse("1.-2.3").is_err());
    assert!(ProtocolVersion::parse("").is_err());
    let got = ProtocolVersion::parse(" 0.1.0 ").expect("trimmed");
    assert_eq!((got.major, got.minor, got.patch), (0, 1, 0));
}

#[test]
fn compat_major_bad() {
    let err = protocol_compat("1.0.0").expect_err("must reject major mismatch");
    assert_eq!(err, HandshakeRejectReason::ProtocolVersionMajorMismatch);
}

#[test]
fn compat_minor_warn() {
    let got = protocol_compat("0.2.0").expect("must allow minor mismatch");
    assert_eq!(got, ProtocolCompat::FractionalMismatch);
}

#[test]
fn compat_exact_match() {
    assert_eq!(protocol_compat("0.1.0").expect("same"), ProtocolCompat::Exact);
}

#[test]
fn replay_cache_window_expiry() {
    let mut c = ReplayNonceCache::default();
    assert!(c.check_and_insert(&[9, 9], 1_000, 100));
    assert!(!c.check_and_insert(&[9, 9], 1_050, 100));
    assert!(c.check_and_insert(&[9, 9], 1_200, 100));
}

#[test]
fn sign_as_reports_the_node_key() {
    let (mut hello, sk) = sample_hello();
    let p = payload_of(&hello);
    let pk = hello.sign_as(&sk, &p).expect("signed");
    assert_eq!(pk, sk.verifying_key().to_bytes());
    assert_eq!(pk, hello.node.pubkey);
    hello.verify_signature(&p).unwrap();
    let mut blank = hello.clone();
    blank.network_id = " ".to_string();
    assert_eq!(blank.sign_as(&sk, &p), Err(HandshakeRejectReason::Malformed));
}

#[test]
fn protocol_version_text_round_trips() {
    let v = ProtocolVersion { major: 3, minor: 0, patch: 12 };
    assert_eq!(v.to_text(), "3.0.12");
    assert_eq!(ProtocolVersion::parse(&v.to_text()), Ok(v));
    let local = ProtocolVersion::parse(PWM_PROTOCOL_VERSION).expect("local");
    assert_eq!(local.to_text(), PWM_PROTOCOL_VERSION);
}

#[test]
fn replay_stays_refused_across_other_nonces() {
    let mut c = ReplayNonceCache::default();
    assert!(c.check_and_insert(&[1], 1_000, 5_000));
    assert!(c.check_and_insert(&[2], 2_000, 5_000));
    assert!(c.check_and_insert(&[3], 4_000, 5_000));
    assert!(!c.check_and_insert(&[1], 5_500, 5_000));
    assert!(c.check_and_insert(&[1], 6_001, 5_000));
}

#[test]
fn replay_refusal_survives_other_nonces_then_expires() {
    let mut replay = ReplayNonceCache::default();
    assert!(replay.check_and_insert(&[1, 2, 3, 4], 1_000, 5_000));
    assert!(replay.check_and_insert(&[9, 9], 1_500, 5_000));
    assert!(replay.check_and_insert(&[8, 8], 3_000, 5_000));
    assert!(!replay.check_and_insert(&[1, 2, 3, 4], 5_900, 5_000));
    // The refusal at 5_900 did not refresh the time recorded at 1_000.
    assert!(replay.check_and_insert(&[1, 2, 3, 4], 6_001, 5_000));
}
