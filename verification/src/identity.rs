//! Shard identifiers and the runtime network/cluster identity of a node.

use crate::text::{
    debug_quoted, debug_str, hex2, parse_unsigned, parse_unsigned_str, push_hex2, starts_with, trim,
    trim_str,
};
use vstd::prelude::*;
use vstd::string::*;

verus! {

#[derive(Clone, Copy, Debug, PartialEq, Eq, Structural, Default)]
pub enum ShardId {
    #[default]
    A,
    B,
}

impl ShardId {
    pub fn as_str(self) -> (r: &'static str)
        ensures
            r@ == (match self {
                ShardId::A => "A"@,
                ShardId::B => "B"@,
            }),
    {
        match self {
            ShardId::A => "A",
            ShardId::B => "B",
        }
    }

    /// Storage namespace of a legacy shard alias.
    pub fn namespace(self) -> (r: &'static str)
        ensures
            r@ == shard_namespace(self),
    {
        match self {
            ShardId::A => "shard-a",
            ShardId::B => "shard-b",
        }
    }
}

pub open spec fn shard_namespace(s: ShardId) -> Seq<char> {
    match s {
        ShardId::A => "shard-a"@,
        ShardId::B => "shard-b"@,
    }
}

/// `domain-hi-0x` followed by two lower-case hex digits.
pub open spec fn domain_namespace_spec(domain_hi: u8) -> Seq<char> {
    "domain-hi-0x"@ + hex2(domain_hi)
}

fn domain_namespace(domain_hi: u8) -> (r: String)
    ensures
        r@ == domain_namespace_spec(domain_hi),
{
    let mut s = String::from_str("domain-hi-0x");
    push_hex2(&mut s, domain_hi);
    s
}

#[derive(Clone, Debug, PartialEq, Eq)]
pub struct RuntimeIdentity {
    pub network_id: String,
    pub cluster_domain_hi: u8,
    pub cluster_id: String,
    pub node_id: String,
    pub mode: RuntimeIdentityMode,
}

#[derive(Clone, Copy, Debug, PartialEq, Eq, Structural)]
pub enum RuntimeIdentityMode {
    /// Explicit domain config is provided; shard-enforced local tx guards are active.
    Explicit,
    /// Relay-compatible neutral baseline without shard alias affinity.
    Neutral,
    /// Relay-compatible baseline; keeps legacy shard alias mapping for migration safety.
    Alias { shard: ShardId },
}

impl RuntimeIdentityMode {
    pub fn is_shard_enforced(self) -> (r: bool)
        ensures
            r == (self is Explicit),
    {
        match self {
            RuntimeIdentityMode::Explicit => true,
            _ => false,
        }
    }

    pub fn as_runtime_label(self) -> (r: &'static str)
        ensures
            r@ == (if self is Explicit {
                "shard_enforced"@
            } else {
                "relay_baseline"@
            }),
    {
        match self {
            RuntimeIdentityMode::Explicit => "shard_enforced",
            RuntimeIdentityMode::Neutral => "relay_baseline",
            RuntimeIdentityMode::Alias { .. } => "relay_baseline",
        }
    }
}

#[derive(Clone, Debug, Default, PartialEq, Eq)]
pub struct RuntimeIdentityInput {
    pub network_id: Option<String>,
    pub cluster_domain_hi: Option<u8>,
    pub cluster_id: Option<String>,
    pub node_id: Option<String>,
}

/// Names of the identity fields left unset, in declaration order.
pub open spec fn missing_names(i: RuntimeIdentityInput) -> Seq<Seq<char>> {
    (if i.network_id is None {
        seq!["network_id"@]
    } else {
        seq![]
    }) + (if i.cluster_domain_hi is None {
        seq!["cluster_domain_hi"@]
    } else {
        seq![]
    }) + (if i.cluster_id is None {
        seq!["cluster_id"@]
    } else {
        seq![]
    }) + (if i.node_id is None {
        seq!["node_id"@]
    } else {
        seq![]
    })
}

/// Names joined with `", "`.
pub open spec fn join_comma(v: Seq<Seq<char>>) -> Seq<char>
    decreases v.len(),
{
    if v.len() == 0 {
        seq![]
    } else if v.len() == 1 {
        v[0]
    } else {
        join_comma(v.drop_last()) + ", "@ + v.last()
    }
}

pub open spec fn input_has_any(i: RuntimeIdentityInput) -> bool {
    i.network_id is Some || i.cluster_domain_hi is Some || i.cluster_id is Some || i.node_id is Some
}

impl RuntimeIdentityInput {
    fn missing_fields(&self) -> (r: Vec<&'static str>)
        ensures
            r@.map_values(|s: &'static str| s@) == missing_names(*self),
    {
        let mut missing: Vec<&'static str> = Vec::new();
        let ghost mut names: Seq<Seq<char>> = seq![];
        if self.network_id.is_none() {
            missing.push("network_id");
            proof {
                names = names.push("network_id"@);
            }
        }
        assert(missing@.map_values(|s: &'static str| s@) =~= names);
        if self.cluster_domain_hi.is_none() {
            missing.push("cluster_domain_hi");
            proof {
                names = names.push("cluster_domain_hi"@);
            }
        }
        assert(missing@.map_values(|s: &'static str| s@) =~= names);
        if self.cluster_id.is_none() {
            missing.push("cluster_id");
            proof {
                names = names.push("cluster_id"@);
            }
        }
        assert(missing@.map_values(|s: &'static str| s@) =~= names);
        if self.node_id.is_none() {
            missing.push("node_id");
            proof {
                names = names.push("node_id"@);
            }
        }
        assert(missing@.map_values(|s: &'static str| s@) =~= names);
        assert(names =~= missing_names(*self));
        missing
    }

    fn has_any(&self) -> (r: bool)
        ensures
            r == input_has_any(*self),
    {
        self.network_id.is_some() || self.cluster_domain_hi.is_some() || self.cluster_id.is_some()
            || self.node_id.is_some()
    }
}

fn join_names(v: &Vec<&'static str>) -> (r: String)
    ensures
        r@ == join_comma(v@.map_values(|s: &'static str| s@)),
{
    let ghost views = v@.map_values(|s: &'static str| s@);
    let mut out = String::new();
    let mut i: usize = 0;
    while i < v.len()
        invariant
            i <= v@.len(),
            views == v@.map_values(|s: &'static str| s@),
            out@ == join_comma(views.take(i as int)),
        decreases v@.len() - i,
    {
        if i > 0 {
            out.append(", ");
        }
        out.append(v[i]);
        assert(views.take(i + 1).drop_last() =~= views.take(i as int));
        i = i + 1;
    }
    assert(views.take(v@.len() as int) =~= views);
    out
}

/// The domain byte as `parse_cluster_domain_hi` reads it: `0x`/`0X` hex or decimal.
pub open spec fn domain_hi_value(raw: Seq<char>) -> Option<nat> {
    let t = trim(raw);
    if t.len() >= 2 && (t.take(2) == "0x"@ || t.take(2) == "0X"@) {
        parse_unsigned(t.skip(2), 16, 255)
    } else {
        parse_unsigned(t, 10, 255)
    }
}

/// Parses a cluster domain byte given in decimal or as `0x`-prefixed hex.
pub fn parse_cluster_domain_hi(raw: &str) -> (r: Result<u8, String>)
    ensures
        match domain_hi_value(raw@) {
            Some(v) => r matches Ok(b) && b == v,
            None => r matches Err(msg) && msg@ == "invalid --cluster-domain-hi value "@ + debug_str(
                trim(raw@),
            ) + "; expected u8/hex"@,
        },
{
    let trimmed = trim_str(raw);
    let n = trimmed.unicode_len();
    proof {
        reveal_strlit("0x");
        reveal_strlit("0X");
    }
    let parsed = if starts_with(trimmed, "0x") || starts_with(trimmed, "0X") {
        let hex = trimmed.substring_char(2, n);
        assert(hex@ =~= trimmed@.skip(2));
        parse_unsigned_str(hex, 16, 255)
    } else {
        parse_unsigned_str(trimmed, 10, 255)
    };
    match parsed {
        Some(v) => Ok(v as u8),
        None => {
            let mut msg = String::from_str("invalid --cluster-domain-hi value ");
            let q = debug_quoted(trimmed);
            msg.append(q.as_str());
            msg.append("; expected u8/hex");
            Err(msg)
        },
    }
}

pub open spec fn default_identity_for_shard(shard: ShardId) -> (Seq<char>, u8, Seq<char>, Seq<char>) {
    match shard {
        ShardId::A => ("devnet"@, 0x10, "compat-shard-a"@, "compat-node-a"@),
        ShardId::B => ("devnet"@, 0x20, "compat-shard-b"@, "compat-node-b"@),
    }
}

pub open spec fn identity_is(
    r: RuntimeIdentity,
    network_id: Seq<char>,
    domain_hi: u8,
    cluster_id: Seq<char>,
    node_id: Seq<char>,
    mode: RuntimeIdentityMode,
) -> bool {
    &&& r.network_id@ == network_id
    &&& r.cluster_domain_hi == domain_hi
    &&& r.cluster_id@ == cluster_id
    &&& r.node_id@ == node_id
    &&& r.mode == mode
}

/// Legacy alias identity for a shard (`compat-*` ids on devnet).
pub(crate) fn default_runtime_identity_for_shard(shard: ShardId) -> (r: RuntimeIdentity)
    ensures
        ({
            let (net, hi, cl, nd) = default_identity_for_shard(shard);
            identity_is(r, net, hi, cl, nd, RuntimeIdentityMode::Alias { shard })
        }),
{
    match shard {
        ShardId::A => RuntimeIdentity {
            network_id: String::from_str("devnet"),
            cluster_domain_hi: 0x10,
            cluster_id: String::from_str("compat-shard-a"),
            node_id: String::from_str("compat-node-a"),
            mode: RuntimeIdentityMode::Alias { shard },
        },
        ShardId::B => RuntimeIdentity {
            network_id: String::from_str("devnet"),
            cluster_domain_hi: 0x20,
            cluster_id: String::from_str("compat-shard-b"),
            node_id: String::from_str("compat-node-b"),
            mode: RuntimeIdentityMode::Alias { shard },
        },
    }
}

/// Neutral relay identity used when no domain configuration is given.
pub fn default_runtime_identity_neutral() -> (r: RuntimeIdentity)
    ensures
        identity_is(
            r,
            "devnet"@,
            0x00,
            "relay-neutral"@,
            "relay-neutral"@,
            RuntimeIdentityMode::Neutral,
        ),
{
    RuntimeIdentity {
        network_id: String::from_str("devnet"),
        cluster_domain_hi: 0x00,
        cluster_id: String::from_str("relay-neutral"),
        node_id: String::from_str("relay-neutral"),
        mode: RuntimeIdentityMode::Neutral,
    }
}

/// Resolves the runtime identity: no field given selects the shard alias
/// identity; all four given select an explicit identity; a partial set is
/// refused with the list of missing fields.
pub fn resolve_runtime_identity(shard: ShardId, input: RuntimeIdentityInput) -> (r: Result<
    RuntimeIdentity,
    String,
>)
    ensures
        !input_has_any(input) ==> (r matches Ok(id) && ({
            let (net, hi, cl, nd) = default_identity_for_shard(shard);
            identity_is(id, net, hi, cl, nd, RuntimeIdentityMode::Alias { shard })
        })),
        input_has_any(input) && missing_names(input).len() > 0 ==> (r matches Err(msg) && msg@
            == "partial identity configuration is not allowed; missing fields: "@ + join_comma(
            missing_names(input),
        )),
        missing_names(input).len() == 0 ==> (r matches Ok(id) && id == (RuntimeIdentity {
            network_id: input.network_id->0,
            cluster_domain_hi: input.cluster_domain_hi->0,
            cluster_id: input.cluster_id->0,
            node_id: input.node_id->0,
            mode: RuntimeIdentityMode::Explicit,
        })),
{
    if !input.has_any() {
        return Ok(default_runtime_identity_for_shard(shard));
    }
    let missing = input.missing_fields();
    if missing.len() > 0 {
        let mut msg = String::from_str(
            "partial identity configuration is not allowed; missing fields: ",
        );
        let joined = join_names(&missing);
        msg.append(joined.as_str());
        return Err(msg);
    }
    match input {
        RuntimeIdentityInput {
            network_id: Some(network_id),
            cluster_domain_hi: Some(cluster_domain_hi),
            cluster_id: Some(cluster_id),
            node_id: Some(node_id),
        } => Ok(
            RuntimeIdentity {
                network_id,
                cluster_domain_hi,
                cluster_id,
                node_id,
                mode: RuntimeIdentityMode::Explicit,
            },
        ),
        _ => {
            assert(false);
            Err(String::new())
        },
    }
}

/// Storage namespace under the state root.
pub open spec fn storage_namespace_spec(id: RuntimeIdentity) -> Seq<char> {
    match id.mode {
        RuntimeIdentityMode::Explicit => domain_namespace_spec(id.cluster_domain_hi),
        RuntimeIdentityMode::Neutral => "neutral"@,
        RuntimeIdentityMode::Alias { shard } => shard_namespace(shard),
    }
}

pub fn storage_namespace(identity: &RuntimeIdentity) -> (r: String)
    ensures
        r@ == storage_namespace_spec(*identity),
{
    match identity.mode {
        RuntimeIdentityMode::Explicit => domain_namespace(identity.cluster_domain_hi),
        RuntimeIdentityMode::Neutral => String::from_str("neutral"),
        RuntimeIdentityMode::Alias { shard } => String::from_str(shard.namespace()),
    }
}

/// Shard label of a runtime identity: `neutral`, the legacy shard alias, or,
/// for an explicit identity, the regulatory label registered for its domain
/// byte (`regulatory_label`, looked up in the domain index) or else
/// `0x` and the byte in upper-case hex.
pub open spec fn shard_label_spec(id: RuntimeIdentity, shard: ShardId, regulatory_label: Option<
    Seq<char>,
>) -> Seq<char> {
    match id.mode {
        RuntimeIdentityMode::Neutral => "neutral"@,
        RuntimeIdentityMode::Alias { .. } => if shard == ShardId::A {
            "A"@
        } else {
            "B"@
        },
        RuntimeIdentityMode::Explicit => match regulatory_label {
            Some(l) => l,
            None => "0x"@ + crate::text::hex2_upper(id.cluster_domain_hi),
        },
    }
}

pub fn runtime_shard_label(
    identity: &RuntimeIdentity,
    shard: ShardId,
    regulatory_label: Option<&str>,
) -> (r: String)
    ensures
        r@ == shard_label_spec(
            *identity,
            shard,
            match regulatory_label {
                Some(l) => Some(l@),
                None => None,
            },
        ),
{
    match identity.mode {
        RuntimeIdentityMode::Neutral => String::from_str("neutral"),
        RuntimeIdentityMode::Alias { .. } => String::from_str(shard.as_str()),
        RuntimeIdentityMode::Explicit => match regulatory_label {
            Some(l) => String::from_str(l),
            None => {
                let mut s = String::from_str("0x");
                crate::text::push_hex2_upper(&mut s, identity.cluster_domain_hi);
                s
            },
        },
    }
}

/// `s` with every `:` replaced by `+`.
pub open spec fn colons_to_plus(s: Seq<char>) -> Seq<char> {
    s.map_values(|c: char| if c == ':' { '+' } else { c })
}

/// Path segment for a neutral node's data directory, from its listen
/// address as text (`ip:port`), so two neutral nodes do not share a file.
pub fn neutral_listen_dir_tag(listen: &str) -> (r: String)
    ensures
        r@ == colons_to_plus(listen@),
{
    let n = listen.unicode_len();
    let mut out = String::new();
    let mut i: usize = 0;
    while i < n
        invariant
            n == listen@.len(),
            i <= n,
            out@ == colons_to_plus(listen@.take(i as int)),
        decreases n - i,
    {
        let c = listen.get_char(i);
        if c == ':' {
            out.append("+");
        } else {
            out.append(listen.substring_char(i, i + 1));
        }
        proof {
            reveal_strlit("+");
        }
        assert(listen@.take(i + 1) =~= listen@.take(i as int).push(c));
        assert(out@ =~= colons_to_plus(listen@.take(i + 1)));
        i = i + 1;
    }
    assert(listen@.take(n as int) =~= listen@);
    out
}

} // verus!
