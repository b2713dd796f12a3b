//! Peer handshake envelope (`NodeHello`) and its local validation gates:
//! mandatory fields, network and genesis binding, Ed25519 signature,
//! timestamp skew and nonce replay.

use crate::text::{
    dec, is_blank, parse_unsigned, parse_unsigned_str, push_dec, str_eq, str_is_blank, trim,
    trim_str,
};
use ed25519_dalek::{Signer, Verifier};
use vstd::prelude::*;
use vstd::string::*;

verus! {

pub const REASON_LABEL_BAD_SIGNATURE: &'static str = "bad_signature";
pub const REASON_LABEL_REPLAY_NONCE: &'static str = "replay_nonce";
pub const REASON_LABEL_NETWORK_MISMATCH: &'static str = "network_mismatch";
pub const REASON_LABEL_GENESIS_MISMATCH: &'static str = "genesis_mismatch";
pub const REASON_LABEL_TIMESTAMP_SKEW: &'static str = "timestamp_skew";
pub const REASON_LABEL_MALFORMED: &'static str = "malformed";
pub const REASON_LABEL_PROTO_BAD: &'static str = "protocol_version_malformed";
pub const REASON_LABEL_PROTO_MAJOR: &'static str = "protocol_version_major_mismatch";
pub const REASON_LABEL_ACTIVE_CONFLICT: &'static str = "same_validator_active_conflict";
pub const PWM_PROTOCOL_VERSION: &'static str = "0.1.0";
pub const SYNC_WIRE_V1: u16 = 1;
pub const SYNC_HDR_MAX: u16 = 512;
pub const SYNC_BLK_MAX: u16 = 64;
pub const SYNC_TX_MAX: u16 = 2048;

#[derive(Clone, Debug, PartialEq, Eq)]
pub struct NodeHello {
    pub network_id: String,
    pub genesis_hash: Option<String>,
    pub cluster: NodeHelloCluster,
    pub node: NodeHelloNode,
    pub capabilities: NodeHelloCapabilities,
    pub nonce: Vec<u8>,
    pub timestamp_ms: u64,
    pub signature: Vec<u8>,
    /// Optional chain tip for federation dictionary merges.
    pub chain_tip_height: Option<u64>,
    /// Optional shard label for federation rows.
    pub federation_shard_id: Option<String>,
    /// Bridge-only commitment digest (no full chain `state_root`).
    pub bridge_commitment: Option<String>,
}

#[derive(Clone, Debug, PartialEq, Eq)]
pub struct NodeHelloCluster {
    pub domain_hi: u8,
    pub cluster_id: String,
}

#[derive(Clone, Debug, PartialEq, Eq)]
pub struct NodeHelloNode {
    pub node_id: String,
    pub pubkey: [u8; 32],
}

#[derive(Clone, Debug, PartialEq, Eq)]
pub struct NodeHelloCapabilities {
    pub protocol_version: String,
    pub tx_features: Vec<String>,
    pub services: Vec<String>,
    pub sync_profile: Option<NodeHelloSyncProfile>,
    pub deployment_profile: DeploymentProfile,
    pub seal_role: SealRole,
    pub validator_identity_hash: Option<String>,
    pub node_instance_id: Option<String>,
    pub lease_owner_id: Option<String>,
    pub lease_term: Option<u64>,
    pub lease_expires_at_ms: Option<u64>,
    pub lease_last_tip: Option<u64>,
    pub lease_fence: Option<u64>,
    pub cluster_attest_enabled: bool,
    pub cluster_role: ClusterRole,
    pub cluster_members: Vec<String>,
    pub cluster_quorum_k: Option<u8>,
    pub cluster_quorum_n: Option<u8>,
}

#[derive(Clone, Copy, Debug, PartialEq, Eq, Structural)]
pub struct NodeHelloSyncProfile {
    pub sync_wire_version: u16,
    pub max_headers_per_msg: u16,
    pub max_blocks_per_msg: u16,
    pub max_txs_per_msg: u16,
    pub supports_epoch_catchup: bool,
}

#[derive(Clone, Copy, Debug, PartialEq, Eq, Structural)]
pub enum SyncMode {
    FullV1,
    LegacyObserve,
}

#[derive(Clone, Copy, Debug, PartialEq, Eq, Structural, Default)]
pub enum DeploymentProfile {
    #[default]
    SingleSealer,
    MultiSealerExperimental,
}

#[derive(Clone, Copy, Debug, PartialEq, Eq, Structural, Default)]
pub enum SealRole {
    #[default]
    Active,
    Standby,
}

#[derive(Clone, Copy, Debug, PartialEq, Eq, Structural, Default)]
pub enum ClusterRole {
    /// Not part of an attesting cluster.
    #[default]
    NoRole,
    Proposer,
    Attester,
}

pub open spec fn opt_str(o: Option<String>) -> Option<Seq<char>> {
    match o {
        Some(s) => Some(s@),
        None => None,
    }
}

/// Some string in the list equals `name`.
pub open spec fn lists(v: Seq<String>, name: Seq<char>) -> bool {
    exists|i: int| 0 <= i < v.len() && (#[trigger] v[i])@ == name
}

/// Some string in the list is blank.
pub open spec fn any_blank(v: Seq<String>) -> bool {
    exists|i: int| 0 <= i < v.len() && is_blank((#[trigger] v[i])@)
}

/// A sync profile within the v1 wire limits.
pub open spec fn profile_ok(p: NodeHelloSyncProfile) -> bool {
    &&& p.sync_wire_version == SYNC_WIRE_V1
    &&& 0 < p.max_headers_per_msg <= SYNC_HDR_MAX
    &&& 0 < p.max_blocks_per_msg <= SYNC_BLK_MAX
    &&& 0 < p.max_txs_per_msg <= SYNC_TX_MAX
}

/// The capabilities advertise `sync` with a v1 profile inside the wire limits.
pub open spec fn sync_v1_ok(c: NodeHelloCapabilities) -> bool {
    lists(c.services@, "sync"@) && match c.sync_profile {
        Some(p) => profile_ok(p),
        None => false,
    }
}

/// The trimmed value when it is not empty.
pub open spec fn trimmed_opt(o: Option<String>) -> Option<Seq<char>> {
    match o {
        Some(s) => if trim(s@).len() > 0 {
            Some(trim(s@))
        } else {
            None
        },
        None => None,
    }
}

fn list_has(v: &Vec<String>, name: &str) -> (r: bool)
    ensures
        r == lists(v@, name@),
{
    let mut i: usize = 0;
    while i < v.len()
        invariant
            i <= v@.len(),
            forall|k: int| 0 <= k < i ==> (#[trigger] v@[k])@ != name@,
        decreases v@.len() - i,
    {
        if str_eq(v[i].as_str(), name) {
            return true;
        }
        i = i + 1;
    }
    false
}

fn list_any_blank(v: &Vec<String>) -> (r: bool)
    ensures
        r == any_blank(v@),
{
    let mut i: usize = 0;
    while i < v.len()
        invariant
            i <= v@.len(),
            forall|k: int| 0 <= k < i ==> !is_blank((#[trigger] v@[k])@),
        decreases v@.len() - i,
    {
        if str_is_blank(v[i].as_str()) {
            return true;
        }
        i = i + 1;
    }
    false
}

fn trimmed_nonempty(o: &Option<String>) -> (r: Option<&str>)
    ensures
        match r {
            Some(t) => trimmed_opt(*o) == Some(t@),
            None => trimmed_opt(*o) is None,
        },
{
    match o {
        Some(s) => {
            let t = trim_str(s.as_str());
            if t.unicode_len() == 0 {
                None
            } else {
                Some(t)
            }
        },
        None => None,
    }
}

impl NodeHelloCapabilities {
    /// Advertises the `sync` service with a v1 profile inside the wire limits.
    pub fn supports_sync_v1(&self) -> (r: bool)
        ensures
            r == sync_v1_ok(*self),
    {
        let has_sync = list_has(&self.services, "sync");
        match &self.sync_profile {
            None => false,
            Some(profile) => {
                has_sync && profile.sync_wire_version == SYNC_WIRE_V1
                    && profile.max_headers_per_msg > 0 && profile.max_headers_per_msg
                    <= SYNC_HDR_MAX && profile.max_blocks_per_msg > 0
                    && profile.max_blocks_per_msg <= SYNC_BLK_MAX && profile.max_txs_per_msg > 0
                    && profile.max_txs_per_msg <= SYNC_TX_MAX
            },
        }
    }

    /// Full v1 sync when supported, legacy observation otherwise.
    pub fn sync_mode(&self) -> (r: SyncMode)
        ensures
            r == (if sync_v1_ok(*self) {
                SyncMode::FullV1
            } else {
                SyncMode::LegacyObserve
            }),
    {
        if self.supports_sync_v1() {
            SyncMode::FullV1
        } else {
            SyncMode::LegacyObserve
        }
    }

    /// Trimmed validator identity hash, when present and not blank.
    pub fn validator_hash(&self) -> (r: Option<&str>)
        ensures
            match r {
                Some(t) => trimmed_opt(self.validator_identity_hash) == Some(t@),
                None => trimmed_opt(self.validator_identity_hash) is None,
            },
    {
        trimmed_nonempty(&self.validator_identity_hash)
    }

    /// Trimmed node instance id, when present and not blank.
    pub fn node_instance_id(&self) -> (r: Option<&str>)
        ensures
            match r {
                Some(t) => trimmed_opt(self.node_instance_id) == Some(t@),
                None => trimmed_opt(self.node_instance_id) is None,
            },
    {
        trimmed_nonempty(&self.node_instance_id)
    }

    /// Trimmed lease owner id, when present and not blank.
    pub fn lease_owner_id(&self) -> (r: Option<&str>)
        ensures
            match r {
                Some(t) => trimmed_opt(self.lease_owner_id) == Some(t@),
                None => trimmed_opt(self.lease_owner_id) is None,
            },
    {
        trimmed_nonempty(&self.lease_owner_id)
    }
}

#[derive(Clone, Debug, PartialEq, Eq)]
pub struct HandshakeValidationCtx {
    pub expected_network_id: String,
    pub expected_genesis_hash: Option<String>,
    pub skew_window_ms: u64,
}

#[derive(Clone, Copy, Debug, PartialEq, Eq, Structural)]
pub enum HandshakeRejectReason {
    BadSignature,
    ReplayNonce,
    NetworkMismatch,
    GenesisMismatch,
    TimestampSkew,
    Malformed,
    ProtocolVersionMalformed,
    ProtocolVersionMajorMismatch,
}

pub open spec fn reason_label(r: HandshakeRejectReason) -> Seq<char> {
    match r {
        HandshakeRejectReason::BadSignature => "bad_signature"@,
        HandshakeRejectReason::ReplayNonce => "replay_nonce"@,
        HandshakeRejectReason::NetworkMismatch => "network_mismatch"@,
        HandshakeRejectReason::GenesisMismatch => "genesis_mismatch"@,
        HandshakeRejectReason::TimestampSkew => "timestamp_skew"@,
        HandshakeRejectReason::Malformed => "malformed"@,
        HandshakeRejectReason::ProtocolVersionMalformed => "protocol_version_malformed"@,
        HandshakeRejectReason::ProtocolVersionMajorMismatch => "protocol_version_major_mismatch"@,
    }
}

impl HandshakeRejectReason {
    /// Stable reason label for metrics and log dimensions.
    pub fn as_label(&self) -> (r: &'static str)
        ensures
            r@ == reason_label(*self),
    {
        match self {
            HandshakeRejectReason::BadSignature => "bad_signature",
            HandshakeRejectReason::ReplayNonce => "replay_nonce",
            HandshakeRejectReason::NetworkMismatch => "network_mismatch",
            HandshakeRejectReason::GenesisMismatch => "genesis_mismatch",
            HandshakeRejectReason::TimestampSkew => "timestamp_skew",
            HandshakeRejectReason::Malformed => "malformed",
            HandshakeRejectReason::ProtocolVersionMalformed => "protocol_version_malformed",
            HandshakeRejectReason::ProtocolVersionMajorMismatch => "protocol_version_major_mismatch",
        }
    }
}

// ---------------------------------------------------------------------------
// Protocol version
// ---------------------------------------------------------------------------

#[derive(Clone, Copy, Debug, PartialEq, Eq, Structural)]
pub struct ProtocolVersion {
    pub major: u64,
    pub minor: u64,
    pub patch: u64,
}

#[derive(Clone, Copy, Debug, PartialEq, Eq, Structural)]
pub enum ProtocolCompat {
    Exact,
    FractionalMismatch,
}

/// Number of leading characters before the first `.` (the whole length when there is none).
pub open spec fn before_dot(s: Seq<char>) -> nat
    decreases s.len(),
{
    if s.len() == 0 || s[0] == '.' {
        0
    } else {
        1 + before_dot(s.drop_first())
    }
}

/// The three `.`-separated pieces of `t`, when it has exactly two dots.
pub open spec fn version_pieces(t: Seq<char>) -> Option<(Seq<char>, Seq<char>, Seq<char>)> {
    let a = before_dot(t) as int;
    if a >= t.len() {
        None
    } else {
        let r = t.skip(a + 1);
        let b = before_dot(r) as int;
        if b >= r.len() {
            None
        } else {
            let p = r.skip(b + 1);
            if before_dot(p) < p.len() {
                None
            } else {
                Some((t.take(a), r.take(b), p))
            }
        }
    }
}

pub open spec fn parse_u64_spec(s: Seq<char>) -> Option<nat> {
    parse_unsigned(s, 10, u64::MAX as nat)
}

/// `major.minor.patch` after trimming, each part a `u64`.
pub open spec fn parse_version(raw: Seq<char>) -> Option<(nat, nat, nat)> {
    match version_pieces(trim(raw)) {
        None => None,
        Some((a, b, c)) => match (parse_u64_spec(a), parse_u64_spec(b), parse_u64_spec(c)) {
            (Some(x), Some(y), Some(z)) => Some((x, y, z)),
            _ => None,
        },
    }
}

proof fn lemma_before_dot(s: Seq<char>, i: int)
    requires
        0 <= i <= s.len(),
        forall|k: int| 0 <= k < i ==> s[k] != '.',
        i == s.len() || s[i] == '.',
    ensures
        before_dot(s) == i,
    decreases i,
{
    if i > 0 {
        let t = s.drop_first();
        assert forall|k: int| 0 <= k < i - 1 implies t[k] != '.' by {
            assert(t[k] == s[k + 1]);
        }
        if i < s.len() {
            assert(t[i - 1] == s[i]);
        }
        lemma_before_dot(t, i - 1);
    }
}

fn find_dot(s: &str) -> (r: usize)
    ensures
        r == before_dot(s@),
        r <= s@.len(),
{
    let n = s.unicode_len();
    let mut i: usize = 0;
    while i < n && s.get_char(i) != '.'
        invariant
            n == s@.len(),
            i <= n,
            forall|k: int| 0 <= k < i ==> s@[k] != '.',
        decreases n - i,
    {
        i = i + 1;
    }
    proof {
        lemma_before_dot(s@, i as int);
    }
    i
}

fn parse_u64(s: &str) -> (r: Option<u64>)
    ensures
        r is Some <==> parse_u64_spec(s@) is Some,
        r is Some ==> r->0 as nat == parse_u64_spec(s@)->0,
{
    parse_unsigned_str(s, 10, u64::MAX)
}

impl ProtocolVersion {
    /// Parses `major.minor.patch` (surrounding whitespace ignored).
    pub fn parse(raw: &str) -> (r: Result<Self, HandshakeRejectReason>)
        ensures
            match parse_version(raw@) {
                Some((x, y, z)) => r == Ok::<Self, HandshakeRejectReason>(
                    ProtocolVersion { major: x as u64, minor: y as u64, patch: z as u64 },
                ),
                None => r == Err::<Self, HandshakeRejectReason>(
                    HandshakeRejectReason::ProtocolVersionMalformed,
                ),
            },
    {
        let t = trim_str(raw);
        let n = t.unicode_len();
        let a = find_dot(t);
        if a >= n {
            return Err(HandshakeRejectReason::ProtocolVersionMalformed);
        }
        let rest = t.substring_char(a + 1, n);
        assert(rest@ =~= t@.skip(a + 1));
        let m = rest.unicode_len();
        let b = find_dot(rest);
        if b >= m {
            return Err(HandshakeRejectReason::ProtocolVersionMalformed);
        }
        let last = rest.substring_char(b + 1, m);
        assert(last@ =~= rest@.skip(b + 1));
        let c = find_dot(last);
        if c < last.unicode_len() {
            return Err(HandshakeRejectReason::ProtocolVersionMalformed);
        }
        let major_s = t.substring_char(0, a);
        let minor_s = rest.substring_char(0, b);
        assert(major_s@ =~= t@.take(a as int));
        assert(minor_s@ =~= rest@.take(b as int));
        let major = match parse_u64(major_s) {
            Some(v) => v,
            None => {
                return Err(HandshakeRejectReason::ProtocolVersionMalformed);
            },
        };
        let minor = match parse_u64(minor_s) {
            Some(v) => v,
            None => {
                return Err(HandshakeRejectReason::ProtocolVersionMalformed);
            },
        };
        let patch = match parse_u64(last) {
            Some(v) => v,
            None => {
                return Err(HandshakeRejectReason::ProtocolVersionMalformed);
            },
        };
        Ok(ProtocolVersion { major, minor, patch })
    }
}

/// `major.minor.patch` in decimal.
pub open spec fn version_text(v: ProtocolVersion) -> Seq<char> {
    dec(v.major as nat) + seq!['.'] + dec(v.minor as nat) + seq!['.'] + dec(v.patch as nat)
}

impl ProtocolVersion {
    /// The version as text, `major.minor.patch`.
    pub fn to_text(&self) -> (r: String)
        ensures
            r@ == version_text(*self),
    {
        proof {
            reveal_strlit(".");
        }
        let mut out = String::new();
        push_dec(&mut out, self.major);
        out.append(".");
        push_dec(&mut out, self.minor);
        out.append(".");
        push_dec(&mut out, self.patch);
        assert(out@ =~= version_text(*self));
        out
    }
}

proof fn lemma_no_dot_before(d: Seq<char>, rest: Seq<char>)
    requires
        forall|i: int| 0 <= i < d.len() ==> 0x30 <= (#[trigger] d[i]) as u32 <= 0x39,
    ensures
        before_dot(d + seq!['.'] + rest) == d.len(),
        before_dot(d) == d.len(),
{
    let s = d + seq!['.'] + rest;
    assert forall|k: int| 0 <= k < d.len() implies s[k] != '.' by {
        assert(s[k] == d[k]);
    }
    assert(s[d.len() as int] == '.');
    lemma_before_dot(s, d.len() as int);
    assert forall|k: int| 0 <= k < d.len() implies d[k] != '.' by {}
    lemma_before_dot(d, d.len() as int);
}

/// A version printed as text parses back to the same version.
pub proof fn lemma_version_text_roundtrip(v: ProtocolVersion)
    ensures
        parse_version(version_text(v)) == Some((v.major as nat, v.minor as nat, v.patch as nat)),
{
    let a = dec(v.major as nat);
    let b = dec(v.minor as nat);
    let c = dec(v.patch as nat);
    crate::text::lemma_dec_chars(v.major as nat);
    crate::text::lemma_dec_chars(v.minor as nat);
    crate::text::lemma_dec_chars(v.patch as nat);
    crate::text::lemma_parse_dec(v.major as nat, u64::MAX as nat);
    crate::text::lemma_parse_dec(v.minor as nat, u64::MAX as nat);
    crate::text::lemma_parse_dec(v.patch as nat, u64::MAX as nat);
    let t = version_text(v);
    assert(!crate::text::is_ws(t[0])) by {
        assert(t[0] == a[0]);
    }
    assert(!crate::text::is_ws(t.last())) by {
        assert(t.last() == c.last());
        assert(c.last() == c[c.len() - 1]);
    }
    assert(crate::text::trim_start(t) == t);
    assert(crate::text::trim_end(t) == t);
    let r1 = b + seq!['.'] + c;
    assert(t =~= a + seq!['.'] + r1);
    lemma_no_dot_before(a, r1);
    assert(t.skip(a.len() as int + 1) =~= r1);
    assert(t.take(a.len() as int) =~= a);
    lemma_no_dot_before(b, c);
    assert(r1.skip(b.len() as int + 1) =~= c);
    assert(r1.take(b.len() as int) =~= b);
    lemma_no_dot_before(c, Seq::<char>::empty());
    assert(trim(t) == t);
    assert(before_dot(t) == a.len());
    assert(before_dot(r1) == b.len());
    assert(version_pieces(t) == Some((a, b, c)));
    assert(parse_u64_spec(a) == Some(v.major as nat));
    assert(parse_u64_spec(b) == Some(v.minor as nat));
    assert(parse_u64_spec(c) == Some(v.patch as nat));
}

/// The version this node speaks (`PWM_PROTOCOL_VERSION`, 0.1.0).
pub fn local_protocol_version() -> (r: ProtocolVersion)
    ensures
        r == (ProtocolVersion { major: 0, minor: 1, patch: 0 }),
{
    ProtocolVersion { major: 0, minor: 1, patch: 0 }
}

/// Compatibility of a peer's version with the local one: the major version
/// must match; a different minor or patch is accepted as a fractional mismatch.
pub fn protocol_compat(remote_raw: &str) -> (r: Result<ProtocolCompat, HandshakeRejectReason>)
    ensures
        match parse_version(remote_raw@) {
            None => r == Err::<ProtocolCompat, HandshakeRejectReason>(
                HandshakeRejectReason::ProtocolVersionMalformed,
            ),
            Some((x, y, z)) => if x != 0 {
                r == Err::<ProtocolCompat, HandshakeRejectReason>(
                    HandshakeRejectReason::ProtocolVersionMajorMismatch,
                )
            } else if y != 1 || z != 0 {
                r == Ok::<ProtocolCompat, HandshakeRejectReason>(ProtocolCompat::FractionalMismatch)
            } else {
                r == Ok::<ProtocolCompat, HandshakeRejectReason>(ProtocolCompat::Exact)
            },
        },
{
    let local = local_protocol_version();
    let remote = ProtocolVersion::parse(remote_raw)?;
    if local.major != remote.major {
        return Err(HandshakeRejectReason::ProtocolVersionMajorMismatch);
    }
    if local.minor != remote.minor || local.patch != remote.patch {
        return Ok(ProtocolCompat::FractionalMismatch);
    }
    Ok(ProtocolCompat::Exact)
}

// ---------------------------------------------------------------------------
// Nonce replay cache
// ---------------------------------------------------------------------------

/// `a.saturating_sub(b)` on `u64`.
pub open spec fn sat_sub(a: u64, b: u64) -> u64 {
    if a >= b {
        (a - b) as u64
    } else {
        0
    }
}

/// An entry seen at `ts` is still inside the window at `now_ms`.
pub open spec fn nonce_fresh(now_ms: u64, window_ms: u64) -> spec_fn((Seq<u8>, u64)) -> bool {
    |e: (Seq<u8>, u64)| sat_sub(now_ms, e.1) <= window_ms
}

pub open spec fn nonce_listed(entries: Seq<(Seq<u8>, u64)>, nonce: Seq<u8>) -> bool {
    exists|i: int| 0 <= i < entries.len() && (#[trigger] entries[i]).0 == nonce
}

#[derive(Clone, Debug)]
struct NonceSeen {
    nonce: Vec<u8>,
    ts: u64,
}

/// Nonces seen recently, each with the time it was first accepted.
#[derive(Clone, Debug, Default)]
pub struct ReplayNonceCache {
    seen: Vec<NonceSeen>,
}

fn bytes_eq(a: &[u8], b: &[u8]) -> (r: bool)
    ensures
        r == (a@ == b@),
{
    if a.len() != b.len() {
        return false;
    }
    let mut i: usize = 0;
    while i < a.len()
        invariant
            a@.len() == b@.len(),
            i <= a@.len(),
            forall|k: int| 0 <= k < i ==> a@[k] == b@[k],
        decreases a@.len() - i,
    {
        if a[i] != b[i] {
            return false;
        }
        i = i + 1;
    }
    assert(a@ =~= b@);
    true
}

fn copy_bytes(a: &[u8]) -> (r: Vec<u8>)
    ensures
        r@ == a@,
{
    let mut out: Vec<u8> = Vec::new();
    let mut i: usize = 0;
    while i < a.len()
        invariant
            i <= a@.len(),
            out@ == a@.take(i as int),
        decreases a@.len() - i,
    {
        out.push(a[i]);
        i = i + 1;
        assert(out@ =~= a@.take(i as int));
    }
    assert(a@.take(a@.len() as int) =~= a@);
    out
}

proof fn lemma_filter_step<A>(s: Seq<A>, pred: spec_fn(A) -> bool, i: int)
    requires
        0 <= i < s.len(),
    ensures
        s.take(i + 1).filter(pred) == if pred(s[i]) {
            s.take(i).filter(pred).push(s[i])
        } else {
            s.take(i).filter(pred)
        },
{
    reveal(Seq::filter);
    assert(s.take(i + 1).drop_last() =~= s.take(i));
}

impl ReplayNonceCache {
    /// Seen nonces with their acceptance times, in insertion order.
    pub closed spec fn entries(&self) -> Seq<(Seq<u8>, u64)> {
        self.seen@.map_values(|e: NonceSeen| (e.nonce@, e.ts))
    }

    fn prune(&mut self, now_ms: u64, window_ms: u64)
        ensures
            final(self).entries() == old(self).entries().filter(nonce_fresh(now_ms, window_ms)),
    {
        let ghost pred = nonce_fresh(now_ms, window_ms);
        let ghost olde = self.entries();
        let mut kept: Vec<NonceSeen> = Vec::new();
        let mut i: usize = 0;
        while i < self.seen.len()
            invariant
                i <= self.seen@.len(),
                olde == self.entries(),
                pred == nonce_fresh(now_ms, window_ms),
                kept@.map_values(|e: NonceSeen| (e.nonce@, e.ts)) == olde.take(i as int).filter(pred),
            decreases self.seen@.len() - i,
        {
            let e = &self.seen[i];
            let keep = if now_ms >= e.ts {
                now_ms - e.ts <= window_ms
            } else {
                true
            };
            proof {
                lemma_filter_step(olde, pred, i as int);
                assert(olde[i as int] == (e.nonce@, e.ts));
            }
            let ghost before_k = kept@;
            if keep {
                kept.push(NonceSeen { nonce: copy_bytes(e.nonce.as_slice()), ts: e.ts });
                assert(kept@.map_values(|e: NonceSeen| (e.nonce@, e.ts)) =~= before_k.map_values(
                    |e: NonceSeen| (e.nonce@, e.ts),
                ).push(olde[i as int]));
            }
            i = i + 1;
        }
        assert(olde.take(olde.len() as int) =~= olde);
        self.seen = kept;
    }

    fn contains(&self, nonce: &[u8]) -> (r: bool)
        ensures
            r == nonce_listed(self.entries(), nonce@),
    {
        let mut i: usize = 0;
        while i < self.seen.len()
            invariant
                i <= self.seen@.len(),
                forall|k: int| 0 <= k < i ==> (#[trigger] self.entries()[k]).0 != nonce@,
            decreases self.seen@.len() - i,
        {
            if bytes_eq(self.seen[i].nonce.as_slice(), nonce) {
                assert(self.entries()[i as int].0 == nonce@);
                return true;
            }
            i = i + 1;
        }
        false
    }

    /// Drops entries older than `window_ms`, then accepts `nonce` (recording
    /// it at `now_ms`) unless it is still among the remaining entries.
    pub fn check_and_insert(&mut self, nonce: &[u8], now_ms: u64, window_ms: u64) -> (r: bool)
        ensures
            r == !nonce_listed(
                old(self).entries().filter(nonce_fresh(now_ms, window_ms)),
                nonce@,
            ),
            final(self).entries() == if r {
                old(self).entries().filter(nonce_fresh(now_ms, window_ms)).push((nonce@, now_ms))
            } else {
                old(self).entries().filter(nonce_fresh(now_ms, window_ms))
            },
    {
        self.prune(now_ms, window_ms);
        if self.contains(nonce) {
            return false;
        }
        let ghost before = self.entries();
        self.seen.push(NonceSeen { nonce: copy_bytes(nonce), ts: now_ms });
        assert(self.entries() =~= before.push((nonce@, now_ms)));
        true
    }
}

/// A nonce accepted at `t1` is refused again at any `t2` from `t1` up to
/// `t1 + window_ms`, whatever else the cache holds.
pub proof fn lemma_replay_refused_within_window(
    entries: Seq<(Seq<u8>, u64)>,
    nonce: Seq<u8>,
    t1: u64,
    t2: u64,
    window_ms: u64,
)
    requires
        t1 <= t2,
        t2 - t1 <= window_ms,
    ensures
        nonce_listed(entries.push((nonce, t1)).filter(nonce_fresh(t2, window_ms)), nonce),
{
    let s = entries.push((nonce, t1));
    let i = entries.len() as int;
    assert(s[i] == (nonce, t1));
    assert(nonce_fresh(t2, window_ms)(s[i]));
    s.lemma_filter_contains(nonce_fresh(t2, window_ms), i);
    let f = s.filter(nonce_fresh(t2, window_ms));
    let j = choose|j: int| 0 <= j < f.len() && f[j] == s[i];
    assert(f[j].0 == nonce);
}

/// The cache after one `check_and_insert` of `nonce` at `now_ms`.
pub open spec fn cache_after(
    entries: Seq<(Seq<u8>, u64)>,
    nonce: Seq<u8>,
    now_ms: u64,
    window_ms: u64,
) -> Seq<(Seq<u8>, u64)> {
    let kept = entries.filter(nonce_fresh(now_ms, window_ms));
    if nonce_listed(kept, nonce) {
        kept
    } else {
        kept.push((nonce, now_ms))
    }
}

/// An accepted nonce keeps its first acceptance time through later checks
/// of any nonce, as long as they come within the window of that time; so a
/// replay inside the window stays refused.
pub proof fn lemma_first_acceptance_kept(
    entries: Seq<(Seq<u8>, u64)>,
    nonce: Seq<u8>,
    t1: u64,
    other: Seq<u8>,
    now_ms: u64,
    window_ms: u64,
)
    requires
        entries.contains((nonce, t1)),
        t1 <= now_ms,
        now_ms - t1 <= window_ms,
    ensures
        cache_after(entries, other, now_ms, window_ms).contains((nonce, t1)),
        nonce_listed(entries.filter(nonce_fresh(now_ms, window_ms)), nonce),
{
    let i = choose|i: int| 0 <= i < entries.len() && entries[i] == (nonce, t1);
    assert(nonce_fresh(now_ms, window_ms)(entries[i]));
    entries.lemma_filter_contains(nonce_fresh(now_ms, window_ms), i);
    let f = entries.filter(nonce_fresh(now_ms, window_ms));
    let j = choose|j: int| 0 <= j < f.len() && f[j] == entries[i];
    assert(f[j].0 == nonce);
    if !nonce_listed(f, other) {
        assert(f.push((other, now_ms))[j] == (nonce, t1));
    }
}

/// The cache after `check_and_insert` of each `(nonce, now_ms)` in `calls`,
/// in order, all with window `window_ms`.
pub open spec fn cache_run(
    entries: Seq<(Seq<u8>, u64)>,
    calls: Seq<(Seq<u8>, u64)>,
    window_ms: u64,
) -> Seq<(Seq<u8>, u64)>
    decreases calls.len(),
{
    if calls.len() == 0 {
        entries
    } else {
        let prev = cache_run(entries, calls.drop_last(), window_ms);
        cache_after(prev, calls.last().0, calls.last().1, window_ms)
    }
}

/// Every entry the cache holds for `nonce` was recorded at `t`.
pub open spec fn recorded_only_at(entries: Seq<(Seq<u8>, u64)>, nonce: Seq<u8>, t: u64) -> bool {
    forall|e: (Seq<u8>, u64)| #[trigger] entries.contains(e) && e.0 == nonce ==> e.1 == t
}

proof fn lemma_run_keeps_first(
    entries: Seq<(Seq<u8>, u64)>,
    nonce: Seq<u8>,
    t1: u64,
    calls: Seq<(Seq<u8>, u64)>,
    t2: u64,
    window_ms: u64,
)
    requires
        entries.contains((nonce, t1)),
        recorded_only_at(entries, nonce, t1),
        t1 <= t2,
        t2 - t1 <= window_ms,
        forall|i: int|
            0 <= i < calls.len() ==> (#[trigger] calls[i]).0 != nonce && t1 <= calls[i].1 <= t2,
    ensures
        cache_run(entries, calls, window_ms).contains((nonce, t1)),
        recorded_only_at(cache_run(entries, calls, window_ms), nonce, t1),
    decreases calls.len(),
{
    if calls.len() > 0 {
        let d = calls.drop_last();
        assert forall|i: int| 0 <= i < d.len() implies (#[trigger] d[i]).0 != nonce && t1 <= d[i].1
            <= t2 by {
            assert(d[i] == calls[i]);
        }
        lemma_run_keeps_first(entries, nonce, t1, d, t2, window_ms);
        let prev = cache_run(entries, d, window_ms);
        let c = calls.last();
        assert(c == calls[calls.len() - 1]);
        lemma_first_acceptance_kept(prev, nonce, t1, c.0, c.1, window_ms);
        let kept = prev.filter(nonce_fresh(c.1, window_ms));
        let next = cache_run(entries, calls, window_ms);
        assert forall|e: (Seq<u8>, u64)| #[trigger] next.contains(e) && e.0 == nonce implies e.1
            == t1 by {
            if kept.contains(e) {
                prev.lemma_filter_contains_rev(nonce_fresh(c.1, window_ms), e);
            } else {
                let k = choose|k: int| 0 <= k < next.len() && next[k] == e;
                assert(k == kept.len());
            }
        }
    }
}

/// Replay refusal over a run of calls: a nonce accepted at `t1` is refused
/// when it comes again at `t2`, up to `t1 + window_ms`, whatever checks of
/// other nonces at times in `[t1, t2]` came between; the refusal does not
/// refresh its time, so once the window has passed it is accepted again.
pub proof fn lemma_replay_refused_across_calls(
    entries: Seq<(Seq<u8>, u64)>,
    nonce: Seq<u8>,
    t1: u64,
    calls: Seq<(Seq<u8>, u64)>,
    t2: u64,
    t3: u64,
    window_ms: u64,
)
    requires
        !nonce_listed(entries.filter(nonce_fresh(t1, window_ms)), nonce),
        t1 <= t2,
        t2 - t1 <= window_ms,
        forall|i: int|
            0 <= i < calls.len() ==> (#[trigger] calls[i]).0 != nonce && t1 <= calls[i].1 <= t2,
    ensures
        nonce_listed(
            cache_run(cache_after(entries, nonce, t1, window_ms), calls, window_ms).filter(
                nonce_fresh(t2, window_ms),
            ),
            nonce,
        ),
        t1 <= t3 && t3 - t1 > window_ms ==> !nonce_listed(
            cache_after(
                cache_run(cache_after(entries, nonce, t1, window_ms), calls, window_ms),
                nonce,
                t2,
                window_ms,
            ).filter(nonce_fresh(t3, window_ms)),
            nonce,
        ),
{
    let kept0 = entries.filter(nonce_fresh(t1, window_ms));
    let e1 = cache_after(entries, nonce, t1, window_ms);
    assert(e1 == kept0.push((nonce, t1)));
    assert(e1[kept0.len() as int] == (nonce, t1));
    assert forall|e: (Seq<u8>, u64)| #[trigger] e1.contains(e) && e.0 == nonce implies e.1 == t1 by {
        let k = choose|k: int| 0 <= k < e1.len() && e1[k] == e;
        if k < kept0.len() {
            assert(kept0[k] == e);
        }
    }
    lemma_run_keeps_first(e1, nonce, t1, calls, t2, window_ms);
    let run = cache_run(e1, calls, window_ms);
    let i = choose|i: int| 0 <= i < run.len() && run[i] == (nonce, t1);
    lemma_first_acceptance_kept(run, nonce, t1, nonce, t2, window_ms);
    if t1 <= t3 && t3 - t1 > window_ms {
        let after = cache_after(run, nonce, t2, window_ms);
        let kept2 = run.filter(nonce_fresh(t2, window_ms));
        assert(after == kept2);
        let f3 = after.filter(nonce_fresh(t3, window_ms));
        if nonce_listed(f3, nonce) {
            let j = choose|j: int| 0 <= j < f3.len() && (#[trigger] f3[j]).0 == nonce;
            let e = f3[j];
            assert(f3.contains(e));
            after.lemma_filter_contains_rev(nonce_fresh(t3, window_ms), e);
            run.lemma_filter_contains_rev(nonce_fresh(t2, window_ms), e);
            after.lemma_filter_pred(nonce_fresh(t3, window_ms), j);
            assert(e.1 == t1);
        }
    }
}

// ---------------------------------------------------------------------------
// Signatures
// ---------------------------------------------------------------------------

#[verifier::external_type_specification]
#[verifier::external_body]
pub struct ExSigningKey(ed25519_dalek::SigningKey);

/// Whether Ed25519 accepts `sig` (64 bytes) as the signature of `msg` under
/// the public key `pubkey` (a key that does not decode is refused).
/// Verification is deterministic in its arguments.
pub uninterp spec fn ed25519_accepts(pubkey: Seq<u8>, sig: Seq<u8>, msg: Seq<u8>) -> bool;

/// Whether 32 bytes decode as an Ed25519 public key (a compressed curve
/// point that decompresses).
pub uninterp spec fn ed25519_key_decodes(pubkey: Seq<u8>) -> bool;

/// `ed25519_dalek::VerifyingKey::verify` on the key decoded from `pubkey`
/// and the signature decoded from `sig`; the result is named
/// [`ed25519_accepts`].
#[verifier::external_body]
pub(crate) fn ed25519_verify(pubkey: &[u8; 32], sig: &[u8], msg: &[u8]) -> (r: bool)
    requires
        sig@.len() == 64,
    ensures
        r == ed25519_accepts(pubkey@, sig@, msg@),
{
    let Ok(arr) = <[u8; 64]>::try_from(sig) else { return false };
    let Ok(vk) = ed25519_dalek::VerifyingKey::from_bytes(pubkey) else { return false };
    vk.verify(msg, &ed25519_dalek::Signature::from_bytes(&arr)).is_ok()
}

/// `ed25519_dalek::VerifyingKey::from_bytes`: whether the bytes decode as a
/// public key; the result is named [`ed25519_key_decodes`].
#[verifier::external_body]
pub(crate) fn ed25519_key_ok(pubkey: &[u8; 32]) -> (r: bool)
    ensures
        r == ed25519_key_decodes(pubkey@),
{
    ed25519_dalek::VerifyingKey::from_bytes(pubkey).is_ok()
}

/// `ed25519_dalek::SigningKey::sign`: the 64 signature bytes of `msg`,
/// returned with the bytes of the signer's own public key
/// (`SigningKey::verifying_key`). That key always decodes, and `verify`
/// under it accepts what `sign` produced. Which bytes the signature has
/// depends on the secret key, which is opaque here.
#[verifier::external_body]
pub(crate) fn ed25519_sign(key: &ed25519_dalek::SigningKey, msg: &[u8]) -> (r: ([u8; 32], Vec<u8>))
    ensures
        r.1@.len() == 64,
        ed25519_key_decodes(r.0@),
        ed25519_accepts(r.0@, r.1@, msg@),
{
    (key.verifying_key().to_bytes(), key.sign(msg).to_bytes().to_vec())
}

/// Signature check of a hello over its signing payload: 64 bytes accepted by Ed25519.
pub open spec fn hello_sig_ok(h: NodeHello, payload: Seq<u8>) -> bool {
    h.signature@.len() == 64 && ed25519_accepts(h.node.pubkey@, h.signature@, payload)
}

/// A hello with a blank mandatory field, an empty nonce, or a blank entry in
/// a list or optional id.
pub open spec fn hello_malformed(h: NodeHello) -> bool {
    ||| is_blank(h.network_id@)
    ||| is_blank(h.cluster.cluster_id@)
    ||| is_blank(h.node.node_id@)
    ||| is_blank(h.capabilities.protocol_version@)
    ||| h.nonce@.len() == 0
    ||| any_blank(h.capabilities.tx_features@)
    ||| any_blank(h.capabilities.services@)
    ||| (h.capabilities.validator_identity_hash matches Some(v) && is_blank(v@))
    ||| (h.capabilities.node_instance_id matches Some(v) && is_blank(v@))
    ||| any_blank(h.capabilities.cluster_members@)
}

fn opt_blank(o: &Option<String>) -> (r: bool)
    ensures
        r == (*o matches Some(v) && is_blank(v@)),
{
    match o {
        Some(v) => str_is_blank(v.as_str()),
        None => false,
    }
}

impl NodeHello {
    /// Rejects a hello whose mandatory fields are blank.
    pub fn validate_mandatory_fields(&self) -> (r: Result<(), HandshakeRejectReason>)
        ensures
            r == if hello_malformed(*self) {
                Err::<(), HandshakeRejectReason>(HandshakeRejectReason::Malformed)
            } else {
                Ok::<(), HandshakeRejectReason>(())
            },
    {
        if str_is_blank(self.network_id.as_str()) || str_is_blank(self.cluster.cluster_id.as_str())
            || str_is_blank(self.node.node_id.as_str()) || str_is_blank(
            self.capabilities.protocol_version.as_str(),
        ) || self.nonce.len() == 0 {
            return Err(HandshakeRejectReason::Malformed);
        }
        if list_any_blank(&self.capabilities.tx_features) || list_any_blank(
            &self.capabilities.services,
        ) {
            return Err(HandshakeRejectReason::Malformed);
        }
        if opt_blank(&self.capabilities.validator_identity_hash) || opt_blank(
            &self.capabilities.node_instance_id,
        ) || list_any_blank(&self.capabilities.cluster_members) {
            return Err(HandshakeRejectReason::Malformed);
        }
        Ok(())
    }

    /// Checks the signature over `payload`, the hello's signing payload
    /// (the JSON envelope of every field but the signature).
    pub fn verify_signature(&self, payload: &[u8]) -> (r: Result<(), HandshakeRejectReason>)
        ensures
            r == if hello_sig_ok(*self, payload@) {
                Ok::<(), HandshakeRejectReason>(())
            } else {
                Err::<(), HandshakeRejectReason>(HandshakeRejectReason::BadSignature)
            },
    {
        if self.signature.len() != 64 {
            return Err(HandshakeRejectReason::BadSignature);
        }
        if ed25519_verify(&self.node.pubkey, self.signature.as_slice(), payload) {
            Ok(())
        } else {
            Err(HandshakeRejectReason::BadSignature)
        }
    }

    /// Signs `payload` (the hello's signing payload) after checking the
    /// mandatory fields, and returns the signer's public key; a malformed
    /// hello is left unsigned. Signed with the key of its own `node.pubkey`,
    /// the hello passes the signature check.
    pub fn sign_as(&mut self, signing_key: &ed25519_dalek::SigningKey, payload: &[u8]) -> (r: Result<
        [u8; 32],
        HandshakeRejectReason,
    >)
        ensures
            r is Err <==> hello_malformed(*old(self)),
            r is Err ==> r == Err::<[u8; 32], HandshakeRejectReason>(HandshakeRejectReason::Malformed)
                && *final(self) == *old(self),
            r is Ok ==> final(self).signature@.len() == 64 && *final(self) == (NodeHello {
                signature: final(self).signature,
                ..*old(self)
            }),
            r matches Ok(pk) ==> ed25519_key_decodes(pk@) && ed25519_accepts(
                pk@,
                final(self).signature@,
                payload@,
            ),
            r matches Ok(pk) ==> (pk == old(self).node.pubkey ==> hello_sig_ok(*final(self), payload@)),
    {
        if self.validate_mandatory_fields().is_err() {
            return Err(HandshakeRejectReason::Malformed);
        }
        let (signer, sig) = ed25519_sign(signing_key, payload);
        self.signature = sig;
        Ok(signer)
    }

    /// Signs `payload` as [`NodeHello::sign_as`] does, without reporting the
    /// signer's key.
    pub fn sign(&mut self, signing_key: &ed25519_dalek::SigningKey, payload: &[u8]) -> (r: Result<
        (),
        HandshakeRejectReason,
    >)
        ensures
            r == if hello_malformed(*old(self)) {
                Err::<(), HandshakeRejectReason>(HandshakeRejectReason::Malformed)
            } else {
                Ok::<(), HandshakeRejectReason>(())
            },
            r is Err ==> *final(self) == *old(self),
            r is Ok ==> final(self).signature@.len() == 64 && *final(self) == (NodeHello {
                signature: final(self).signature,
                ..*old(self)
            }),
            r is Ok ==> exists|pk: [u8; 32]|
                ed25519_key_decodes(pk@) && #[trigger] ed25519_accepts(
                    pk@,
                    final(self).signature@,
                    payload@,
                ),
    {
        match self.sign_as(signing_key, payload) {
            Ok(_) => Ok(()),
            Err(e) => Err(e),
        }
    }
}

/// The first gate a hello fails before the replay check, if any.
pub open spec fn hello_precheck(
    h: NodeHello,
    ctx: HandshakeValidationCtx,
    now_ms: u64,
    payload: Seq<u8>,
) -> Option<HandshakeRejectReason> {
    if hello_malformed(h) {
        Some(HandshakeRejectReason::Malformed)
    } else if h.network_id@ != ctx.expected_network_id@ {
        Some(HandshakeRejectReason::NetworkMismatch)
    } else if ctx.expected_genesis_hash is Some && opt_str(h.genesis_hash) != opt_str(
        ctx.expected_genesis_hash,
    ) {
        Some(HandshakeRejectReason::GenesisMismatch)
    } else if !hello_sig_ok(h, payload) {
        Some(HandshakeRejectReason::BadSignature)
    } else if sat_sub(now_ms, h.timestamp_ms) + sat_sub(h.timestamp_ms, now_ms)
        > ctx.skew_window_ms {
        Some(HandshakeRejectReason::TimestampSkew)
    } else {
        None
    }
}

fn opt_str_eq(a: &Option<String>, b: &String) -> (r: bool)
    ensures
        r == (opt_str(*a) == Some(b@)),
{
    match a {
        Some(x) => str_eq(x.as_str(), b.as_str()),
        None => false,
    }
}

/// Validates a peer hello: mandatory fields, network id, genesis hash (when
/// one is expected), signature over `payload`, timestamp within the skew
/// window, and finally a nonce not seen within that window. The replay cache
/// is consulted (and updated) only when every earlier gate passed.
pub fn validate_node_hello(
    hello: &NodeHello,
    ctx: &HandshakeValidationCtx,
    now_ms: u64,
    replay: &mut ReplayNonceCache,
    payload: &[u8],
) -> (r: Result<(), HandshakeRejectReason>)
    ensures
        match hello_precheck(*hello, *ctx, now_ms, payload@) {
            Some(e) => r == Err::<(), HandshakeRejectReason>(e) && final(replay).entries() == old(
                replay,
            ).entries(),
            None => {
                let kept = old(replay).entries().filter(
                    nonce_fresh(now_ms, ctx.skew_window_ms),
                );
                if nonce_listed(kept, hello.nonce@) {
                    r == Err::<(), HandshakeRejectReason>(HandshakeRejectReason::ReplayNonce)
                        && final(replay).entries() == kept
                } else {
                    r == Ok::<(), HandshakeRejectReason>(()) && final(replay).entries() == kept.push(
                        (hello.nonce@, now_ms),
                    )
                }
            },
        },
{
    hello.validate_mandatory_fields()?;
    if !str_eq(hello.network_id.as_str(), ctx.expected_network_id.as_str()) {
        return Err(HandshakeRejectReason::NetworkMismatch);
    }
    if let Some(expected) = &ctx.expected_genesis_hash {
        if !opt_str_eq(&hello.genesis_hash, expected) {
            return Err(HandshakeRejectReason::GenesisMismatch);
        }
    }
    hello.verify_signature(payload)?;
    let skew = if now_ms >= hello.timestamp_ms {
        now_ms - hello.timestamp_ms
    } else {
        hello.timestamp_ms - now_ms
    };
    if skew > ctx.skew_window_ms {
        return Err(HandshakeRejectReason::TimestampSkew);
    }
    if !replay.check_and_insert(hello.nonce.as_slice(), now_ms, ctx.skew_window_ms) {
        return Err(HandshakeRejectReason::ReplayNonce);
    }
    Ok(())
}

} // verus!
