//! Export handoffs between shards: the signed provenance record a source
//! node issues for a roaming intent, its verification on the target node,
//! and the checks that decide whether the target registers it in its
//! cross-shard ledger.

use crate::api::{hex_bytes, hex_decode, hex_encode, hex_spec, hex_text_ok, hex32, parse_id, id_text_ok, hex_byte, ImportProvenanceOut};
use crate::handshake::{ed25519_accepts, ed25519_key_decodes, ed25519_key_ok, ed25519_sign, ed25519_verify};
use crate::roaming::{intent_status_label, IntentStatus, RoamingIntent};
use crate::text::{dec, hex2_upper, push_dec, push_hex2_upper, trim, trim_str, str_eq};
use vstd::prelude::*;
use vstd::string::*;

verus! {

// ---------------------------------------------------------------------------
// The handoff record and its signed message
// ---------------------------------------------------------------------------

/// Signed provenance of an export, as the source node hands it to the
/// target shard.
#[derive(Clone, Debug)]
pub struct ExportHandoffOut {
    pub proof_version: u8,
    pub network_id: String,
    pub source_domain_hi: u8,
    pub source_cluster_id: String,
    pub source_node_id: String,
    pub source_node_pubkey: String,
    pub intent_id: String,
    pub export_id: String,
    pub source: String,
    pub to: String,
    pub target_domain: u16,
    pub amount: String,
    pub status: IntentStatus,
    pub signature: String,
}

/// Text whose UTF-8 bytes a handoff signature covers.
pub open spec fn handoff_text(
    network_id: Seq<char>,
    source_domain_hi: u8,
    source_cluster_id: Seq<char>,
    source_node_id: Seq<char>,
    intent_id: Seq<char>,
    export_id: Seq<char>,
    source: Seq<char>,
    to: Seq<char>,
    target_domain: u16,
    amount: Seq<char>,
    status: IntentStatus,
) -> Seq<char> {
    "pwm-export-handoff-v1|"@ + network_id + "|"@ + hex2_upper(source_domain_hi) + "|"@
        + source_cluster_id + "|"@ + source_node_id + "|"@ + intent_id + "|"@ + export_id + "|"@
        + source + "|"@ + to + "|"@ + dec(target_domain as nat) + "|"@ + amount + "|"@
        + intent_status_label(status)
}

/// Bytes a handoff's signature is checked against.
pub open spec fn handoff_message(h: ExportHandoffOut) -> Seq<u8> {
    vstd::utf8::encode_utf8(
        handoff_text(
            h.network_id@,
            h.source_domain_hi,
            h.source_cluster_id@,
            h.source_node_id@,
            h.intent_id@,
            h.export_id@,
            h.source@,
            h.to@,
            h.target_domain,
            h.amount@,
            h.status,
        ),
    )
}

/// The message a handoff signature covers, as UTF-8 bytes.
pub fn handoff_msg(
    network_id: &str,
    source_domain_hi: u8,
    source_cluster_id: &str,
    source_node_id: &str,
    intent_id: &str,
    export_id: &str,
    source: &str,
    to: &str,
    target_domain: u16,
    amount: &str,
    status: IntentStatus,
) -> (r: Vec<u8>)
    ensures
        r@ == vstd::utf8::encode_utf8(
            handoff_text(
                network_id@,
                source_domain_hi,
                source_cluster_id@,
                source_node_id@,
                intent_id@,
                export_id@,
                source@,
                to@,
                target_domain,
                amount@,
                status,
            ),
        ),
{
    proof {
        reveal_strlit("pwm-export-handoff-v1|");
        reveal_strlit("|");
    }
    let mut s = String::from_str("pwm-export-handoff-v1|");
    s.append(network_id);
    s.append("|");
    push_hex2_upper(&mut s, source_domain_hi);
    s.append("|");
    s.append(source_cluster_id);
    s.append("|");
    s.append(source_node_id);
    s.append("|");
    s.append(intent_id);
    s.append("|");
    s.append(export_id);
    s.append("|");
    s.append(source);
    s.append("|");
    s.append(to);
    s.append("|");
    push_dec(&mut s, target_domain as u64);
    s.append("|");
    s.append(amount);
    s.append("|");
    s.append(status.as_str());
    assert(s@ =~= handoff_text(
        network_id@,
        source_domain_hi,
        source_cluster_id@,
        source_node_id@,
        intent_id@,
        export_id@,
        source@,
        to@,
        target_domain,
        amount@,
        status,
    ));
    let b = s.as_str().as_bytes();
    vstd::slice::slice_to_vec(b)
}

// ---------------------------------------------------------------------------
// Rejections
// ---------------------------------------------------------------------------

/// Why a handoff is refused.
#[derive(Clone, Debug, PartialEq, Eq)]
pub enum HandoffError {
    ProofVersion,
    NotRelayed,
    PubkeyInvalid,
    PubkeyLength,
    SignatureInvalid,
    SignatureLength,
    NetworkMismatch,
    SourceNotTrusted,
    SourceMismatch,
    SourceNotLive,
    InvalidExportId,
    InvalidSource,
    InvalidTo,
    InvalidAmount,
    /// The recipient address policy refused `to`, with its message.
    RecipientPolicy(String),
    RecipientDomain,
    ForeignTarget,
    AlreadyImported,
    ProvenanceConflict,
}

/// HTTP status a rejection is answered with.
pub open spec fn handoff_error_status(e: HandoffError) -> u16 {
    match e {
        HandoffError::SourceNotTrusted | HandoffError::SourceMismatch
        | HandoffError::SourceNotLive => 403,
        HandoffError::ForeignTarget | HandoffError::AlreadyImported => 409,
        _ => 400,
    }
}

/// `" export_id=<e> intent_id=<i>"`, the suffix that names the handoff.
pub open spec fn ids_suffix(export_id: Seq<char>, intent_id: Seq<char>) -> Seq<char> {
    " export_id="@ + export_id + " intent_id="@ + intent_id
}

/// Message of a rejection of the handoff with these ids.
pub open spec fn handoff_error_message(
    e: HandoffError,
    export_id: Seq<char>,
    intent_id: Seq<char>,
) -> Seq<char> {
    match e {
        HandoffError::ProofVersion => "invalid handoff proof_version"@,
        HandoffError::NotRelayed => "export handoff must be finalized with status=relayed"@,
        HandoffError::PubkeyInvalid => "invalid handoff source_node_pubkey"@,
        HandoffError::PubkeyLength => "invalid handoff source_node_pubkey length"@,
        HandoffError::SignatureInvalid => "invalid handoff signature"@,
        HandoffError::SignatureLength => "invalid handoff signature length"@,
        HandoffError::NetworkMismatch => "export handoff network_id does not match target node"@
            + ids_suffix(export_id, intent_id),
        HandoffError::SourceNotTrusted =>
            "export handoff source peer is not trusted by handshake state"@,
        HandoffError::SourceMismatch =>
            "export handoff source identity does not match trusted peer state"@,
        HandoffError::SourceNotLive => "export handoff source peer is not live"@,
        HandoffError::InvalidExportId => "invalid export_id"@,
        HandoffError::InvalidSource => "invalid source"@,
        HandoffError::InvalidTo => "invalid to"@,
        HandoffError::InvalidAmount => "invalid handoff amount"@,
        HandoffError::RecipientPolicy(m) => m@,
        HandoffError::RecipientDomain =>
            "export handoff recipient domain does not match target_domain"@ + ids_suffix(
                export_id,
                intent_id,
            ),
        HandoffError::ForeignTarget =>
            "export handoff target_domain does not belong to this target node"@ + ids_suffix(
                export_id,
                intent_id,
            ),
        HandoffError::AlreadyImported => "export handoff already imported"@ + ids_suffix(
            export_id,
            intent_id,
        ),
        HandoffError::ProvenanceConflict =>
            "export handoff conflicts with registered provenance"@ + ids_suffix(
                export_id,
                intent_id,
            ),
    }
}

fn push_ids(s: &mut String, export_id: &str, intent_id: &str)
    ensures
        final(s)@ == old(s)@ + ids_suffix(export_id@, intent_id@),
{
    proof {
        reveal_strlit(" export_id=");
        reveal_strlit(" intent_id=");
    }
    s.append(" export_id=");
    s.append(export_id);
    s.append(" intent_id=");
    s.append(intent_id);
    assert(final(s)@ =~= old(s)@ + ids_suffix(export_id@, intent_id@));
}

impl HandoffError {
    /// HTTP status of the rejection (400, 403 or 409).
    pub fn status_code(&self) -> (r: u16)
        ensures
            r == handoff_error_status(*self),
    {
        match self {
            HandoffError::SourceNotTrusted | HandoffError::SourceMismatch
            | HandoffError::SourceNotLive => 403,
            HandoffError::ForeignTarget | HandoffError::AlreadyImported => 409,
            _ => 400,
        }
    }

    /// Message of the rejection for the handoff with these ids.
    pub fn message(&self, export_id: &str, intent_id: &str) -> (r: String)
        ensures
            r@ == handoff_error_message(*self, export_id@, intent_id@),
    {
        proof {
            reveal_strlit("invalid handoff proof_version");
            reveal_strlit("export handoff must be finalized with status=relayed");
            reveal_strlit("invalid handoff source_node_pubkey");
            reveal_strlit("invalid handoff source_node_pubkey length");
            reveal_strlit("invalid handoff signature");
            reveal_strlit("invalid handoff signature length");
            reveal_strlit("export handoff network_id does not match target node");
            reveal_strlit("export handoff source peer is not trusted by handshake state");
            reveal_strlit("export handoff source identity does not match trusted peer state");
            reveal_strlit("export handoff source peer is not live");
            reveal_strlit("invalid export_id");
            reveal_strlit("invalid source");
            reveal_strlit("invalid to");
            reveal_strlit("invalid handoff amount");
            reveal_strlit("export handoff recipient domain does not match target_domain");
            reveal_strlit("export handoff target_domain does not belong to this target node");
            reveal_strlit("export handoff already imported");
            reveal_strlit("export handoff conflicts with registered provenance");
        }
        match self {
            HandoffError::ProofVersion => String::from_str("invalid handoff proof_version"),
            HandoffError::NotRelayed => String::from_str(
                "export handoff must be finalized with status=relayed",
            ),
            HandoffError::PubkeyInvalid => String::from_str("invalid handoff source_node_pubkey"),
            HandoffError::PubkeyLength => String::from_str(
                "invalid handoff source_node_pubkey length",
            ),
            HandoffError::SignatureInvalid => String::from_str("invalid handoff signature"),
            HandoffError::SignatureLength => String::from_str("invalid handoff signature length"),
            HandoffError::NetworkMismatch => {
                let mut s = String::from_str(
                    "export handoff network_id does not match target node",
                );
                push_ids(&mut s, export_id, intent_id);
                s
            },
            HandoffError::SourceNotTrusted => String::from_str(
                "export handoff source peer is not trusted by handshake state",
            ),
            HandoffError::SourceMismatch => String::from_str(
                "export handoff source identity does not match trusted peer state",
            ),
            HandoffError::SourceNotLive => String::from_str(
                "export handoff source peer is not live",
            ),
            HandoffError::InvalidExportId => String::from_str("invalid export_id"),
            HandoffError::InvalidSource => String::from_str("invalid source"),
            HandoffError::InvalidTo => String::from_str("invalid to"),
            HandoffError::InvalidAmount => String::from_str("invalid handoff amount"),
            HandoffError::RecipientPolicy(m) => m.clone(),
            HandoffError::RecipientDomain => {
                let mut s = String::from_str(
                    "export handoff recipient domain does not match target_domain",
                );
                push_ids(&mut s, export_id, intent_id);
                s
            },
            HandoffError::ForeignTarget => {
                let mut s = String::from_str(
                    "export handoff target_domain does not belong to this target node",
                );
                push_ids(&mut s, export_id, intent_id);
                s
            },
            HandoffError::AlreadyImported => {
                let mut s = String::from_str("export handoff already imported");
                push_ids(&mut s, export_id, intent_id);
                s
            },
            HandoffError::ProvenanceConflict => {
                let mut s = String::from_str(
                    "export handoff conflicts with registered provenance",
                );
                push_ids(&mut s, export_id, intent_id);
                s
            },
        }
    }
}

// ---------------------------------------------------------------------------
// Verification on the target node
// ---------------------------------------------------------------------------

/// Bytes of the source public key as the handoff spells it.
pub open spec fn pubkey_bytes(h: ExportHandoffOut) -> Seq<u8> {
    hex_bytes(trim(h.source_node_pubkey@))
}

/// Bytes of the signature as the handoff spells it.
pub open spec fn signature_bytes(h: ExportHandoffOut) -> Seq<u8> {
    hex_bytes(trim(h.signature@))
}

/// The first check a handoff fails, in the order the target node makes
/// them: proof version, status, public key text, length and decoding,
/// signature text and length, and the signature over the handoff message.
pub open spec fn verify_outcome(h: ExportHandoffOut) -> Result<(), HandoffError> {
    if h.proof_version != 1 {
        Err(HandoffError::ProofVersion)
    } else if h.status != IntentStatus::Relayed {
        Err(HandoffError::NotRelayed)
    } else if !hex_text_ok(trim(h.source_node_pubkey@)) {
        Err(HandoffError::PubkeyInvalid)
    } else if pubkey_bytes(h).len() != 32 {
        Err(HandoffError::PubkeyLength)
    } else if !ed25519_key_decodes(pubkey_bytes(h)) {
        Err(HandoffError::PubkeyInvalid)
    } else if !hex_text_ok(trim(h.signature@)) {
        Err(HandoffError::SignatureInvalid)
    } else if signature_bytes(h).len() != 64 {
        Err(HandoffError::SignatureLength)
    } else if !ed25519_accepts(pubkey_bytes(h), signature_bytes(h), handoff_message(h)) {
        Err(HandoffError::SignatureInvalid)
    } else {
        Ok(())
    }
}

fn bytes32(v: &Vec<u8>) -> (r: [u8; 32])
    requires
        v@.len() == 32,
    ensures
        r@ == v@,
{
    let mut a = [0u8; 32];
    let mut i: usize = 0;
    while i < 32
        invariant
            v@.len() == 32,
            i <= 32,
            forall|j: int| 0 <= j < i ==> a[j] == v@[j],
        decreases 32 - i,
    {
        a[i] = v[i];
        i = i + 1;
    }
    assert(a@ =~= v@);
    a
}

/// The source public key of a handoff, decoded (`PubkeyInvalid` or
/// `PubkeyLength` when the text is not 32 bytes of hex).
fn handoff_pubkey(input: &ExportHandoffOut) -> (r: Result<[u8; 32], HandoffError>)
    ensures
        match r {
            Ok(pk) => hex_text_ok(trim(input.source_node_pubkey@)) && pubkey_bytes(*input).len()
                == 32 && pk@ == pubkey_bytes(*input),
            Err(e) => if !hex_text_ok(trim(input.source_node_pubkey@)) {
                e == HandoffError::PubkeyInvalid
            } else {
                pubkey_bytes(*input).len() != 32 && e == HandoffError::PubkeyLength
            },
        },
{
    let raw = match hex_decode(trim_str(input.source_node_pubkey.as_str())) {
        Ok(v) => v,
        Err(_) => return Err(HandoffError::PubkeyInvalid),
    };
    if raw.len() != 32 {
        return Err(HandoffError::PubkeyLength);
    }
    Ok(bytes32(&raw))
}

/// Checks a handoff's proof version, status and signature.
pub fn verify_handoff(input: &ExportHandoffOut) -> (r: Result<(), HandoffError>)
    ensures
        r == verify_outcome(*input),
{
    if input.proof_version != 1 {
        return Err(HandoffError::ProofVersion);
    }
    match input.status {
        IntentStatus::Relayed => {},
        _ => return Err(HandoffError::NotRelayed),
    }
    let pk = handoff_pubkey(input)?;
    if !ed25519_key_ok(&pk) {
        return Err(HandoffError::PubkeyInvalid);
    }
    let sig = match hex_decode(trim_str(input.signature.as_str())) {
        Ok(v) => v,
        Err(_) => return Err(HandoffError::SignatureInvalid),
    };
    if sig.len() != 64 {
        return Err(HandoffError::SignatureLength);
    }
    let msg = handoff_msg(
        input.network_id.as_str(),
        input.source_domain_hi,
        input.source_cluster_id.as_str(),
        input.source_node_id.as_str(),
        input.intent_id.as_str(),
        input.export_id.as_str(),
        input.source.as_str(),
        input.to.as_str(),
        input.target_domain,
        input.amount.as_str(),
        input.status,
    );
    if !ed25519_verify(&pk, sig.as_slice(), msg.as_slice()) {
        return Err(HandoffError::SignatureInvalid);
    }
    Ok(())
}

// ---------------------------------------------------------------------------
// Issuing a handoff on the source node
// ---------------------------------------------------------------------------

/// The handoff a source node issues for `intent` with `status`: its
/// identity, the intent's ids in hex, the amount in decimal, and a
/// signature by `key` over the handoff message together with the hex of
/// the key's public half.
pub fn handoff_for_intent(
    identity: &crate::identity::RuntimeIdentity,
    key: &ed25519_dalek::SigningKey,
    intent: &RoamingIntent,
    status: IntentStatus,
) -> (r: ExportHandoffOut)
    ensures
        r.proof_version == 1,
        r.network_id@ == identity.network_id@,
        r.source_domain_hi == identity.cluster_domain_hi,
        r.source_cluster_id@ == identity.cluster_id@,
        r.source_node_id@ == identity.node_id@,
        r.intent_id@ == hex_spec(intent.intent_id@),
        r.export_id@ == hex_spec(intent.export_id@),
        r.source@ == hex_spec(intent.source@),
        r.to@ == hex_spec(intent.to@),
        r.target_domain == intent.target_domain,
        r.amount@ == dec(intent.amount as nat),
        r.status == status,
        hex_text_ok(trim(r.source_node_pubkey@)),
        pubkey_bytes(r).len() == 32,
        ed25519_key_decodes(pubkey_bytes(r)),
        hex_text_ok(trim(r.signature@)),
        signature_bytes(r).len() == 64,
        ed25519_accepts(pubkey_bytes(r), signature_bytes(r), handoff_message(r)),
        status == IntentStatus::Relayed ==> verify_outcome(r) == Ok::<(), HandoffError>(()),
{
    let intent_id = hex32(&intent.intent_id);
    let export_id = hex32(&intent.export_id);
    let source = hex32(&intent.source);
    let to = hex32(&intent.to);
    let mut amount = String::new();
    crate::text::push_dec128(&mut amount, intent.amount);
    let msg = handoff_msg(
        identity.network_id.as_str(),
        identity.cluster_domain_hi,
        identity.cluster_id.as_str(),
        identity.node_id.as_str(),
        intent_id.as_str(),
        export_id.as_str(),
        source.as_str(),
        to.as_str(),
        intent.target_domain,
        amount.as_str(),
        status,
    );
    let (pk, sig) = ed25519_sign(key, msg.as_slice());
    let source_node_pubkey = hex_encode(&pk);
    let signature = hex_encode(sig.as_slice());
    let r = ExportHandoffOut {
        proof_version: 1,
        network_id: identity.network_id.clone(),
        source_domain_hi: identity.cluster_domain_hi,
        source_cluster_id: identity.cluster_id.clone(),
        source_node_id: identity.node_id.clone(),
        source_node_pubkey,
        intent_id,
        export_id,
        source,
        to,
        target_domain: intent.target_domain,
        amount,
        status,
        signature,
    };
    proof {
        crate::api::lemma_hex_roundtrip(pk@);
        crate::api::lemma_hex_roundtrip(sig@);
        assert(handoff_message(r) == msg@);
    }
    r
}

// ---------------------------------------------------------------------------
// Trust in the source node
// ---------------------------------------------------------------------------

/// What the handshake state trusts for a peer node.
#[derive(Clone, Debug)]
pub struct TrustedSourcePeer {
    pub node_id: String,
    pub cluster_id: String,
    pub domain_hi: u8,
    pub pubkey: [u8; 32],
}

/// Whether a handoff comes from the trusted, live node it names. `peer` is
/// the trusted peer filed under the handoff's `source_node_id`, `live`
/// whether a live session with that node exists.
pub open spec fn trust_outcome(
    h: ExportHandoffOut,
    peer: Option<TrustedSourcePeer>,
    live: bool,
) -> Result<(), HandoffError> {
    if !hex_text_ok(trim(h.source_node_pubkey@)) {
        Err(HandoffError::PubkeyInvalid)
    } else if pubkey_bytes(h).len() != 32 {
        Err(HandoffError::PubkeyLength)
    } else {
        match peer {
            None => Err(HandoffError::SourceNotTrusted),
            Some(p) => if p.node_id@ != h.source_node_id@ || p.cluster_id@ != h.source_cluster_id@
                || p.domain_hi != h.source_domain_hi || p.pubkey@ != pubkey_bytes(h) {
                Err(HandoffError::SourceMismatch)
            } else if !live {
                Err(HandoffError::SourceNotLive)
            } else {
                Ok(())
            },
        }
    }
}

/// Checks that a handoff's source is the trusted peer filed under its
/// `source_node_id` (same node, cluster, domain byte and public key) and
/// that the peer is live.
pub fn check_trusted_source(
    input: &ExportHandoffOut,
    peer: &Option<TrustedSourcePeer>,
    source_live: bool,
) -> (r: Result<(), HandoffError>)
    ensures
        r == trust_outcome(*input, *peer, source_live),
{
    let pk = handoff_pubkey(input)?;
    match peer {
        None => Err(HandoffError::SourceNotTrusted),
        Some(p) => {
            let same_key = crate::ledger::id_eq(&p.pubkey, &pk);
            assert(same_key <==> p.pubkey@ == pk@) by {
                if p.pubkey@ == pk@ {
                    assert(p.pubkey =~= pk);
                }
            }
            if !str_eq(p.node_id.as_str(), input.source_node_id.as_str()) || !str_eq(
                p.cluster_id.as_str(),
                input.source_cluster_id.as_str(),
            ) || p.domain_hi != input.source_domain_hi || !same_key {
                return Err(HandoffError::SourceMismatch);
            }
            if !source_live {
                return Err(HandoffError::SourceNotLive);
            }
            Ok(())
        },
    }
}

// ---------------------------------------------------------------------------
// Registration on the target node
// ---------------------------------------------------------------------------

/// `a` is the 32-byte id that `s` spells in hex (surrounding whitespace
/// ignored).
pub open spec fn spells_id(a: [u8; 32], s: Seq<char>) -> bool {
    id_text_ok(s) && forall|i: int| 0 <= i < 32 ==> a[i] == hex_byte(trim(s), i)
}

/// The id spelled by `s` (meaningful where `id_text_ok(s)`).
pub open spec fn id_of(s: Seq<char>) -> [u8; 32] {
    choose|a: [u8; 32]| spells_id(a, s)
}

proof fn lemma_id_of(a: [u8; 32], s: Seq<char>)
    requires
        spells_id(a, s),
    ensures
        id_of(s) == a,
{
    let b = id_of(s);
    assert(spells_id(b, s));
    assert(b =~= a);
}

pub(crate) fn parse_spelled_id(s: &str) -> (r: Option<[u8; 32]>)
    ensures
        r is Some <==> id_text_ok(s@),
        r matches Some(a) ==> a == id_of(s@),
{
    match parse_id(s) {
        Ok(a) => {
            proof {
                lemma_id_of(a, s@);
            }
            Some(a)
        },
        Err(_) => None,
    }
}

/// The amount a handoff's decimal text spells (meaningful where it parses).
pub open spec fn amount_of(s: Seq<char>) -> u128 {
    crate::text::parse_unsigned(trim(s), 10, u128::MAX as nat)->0 as u128
}

/// Whether a handoff's amount text is a `u128` once trimmed.
pub open spec fn amount_ok(s: Seq<char>) -> bool {
    crate::text::parse_unsigned(trim(s), 10, u128::MAX as nat) is Some
}

/// The fact a registered handoff files at `height`.
pub open spec fn registered_fact(h: ExportHandoffOut, height: u64) -> crate::ledger::CrossShardFact {
    crate::ledger::handoff_fact(
        id_of(h.export_id@),
        h.source_domain_hi,
        id_of(h.source@),
        id_of(h.to@),
        h.target_domain,
        amount_of(h.amount@),
        height,
        if id_text_ok(h.intent_id@) {
            Some(id_of(h.intent_id@))
        } else {
            None
        },
    )
}

/// Whether a known fact records the same provenance as the handoff.
pub open spec fn same_provenance(f: crate::ledger::CrossShardFact, h: ExportHandoffOut) -> bool {
    &&& f.to == id_of(h.to@)
    &&& f.amount == amount_of(h.amount@)
    &&& f.target_domain_hi == crate::ledger::domain_hi_of(h.target_domain)
    &&& f.source == Some(id_of(h.source@))
}

/// Outcome of registering a handoff on the target node: `Ok(duplicate)`,
/// or the first check it fails. The checks, in order: the network, the
/// handoff's signature, the trusted source, the ids and amount, the
/// recipient policy (`policy`, from the chain's address rules), the
/// recipient's domain (`recipient_domain`) against the target domain, that
/// the target domain belongs to this shard (shard-enforced identities
/// only), that the export is not imported yet, and that any fact already
/// known for the export records the same provenance.
pub open spec fn register_outcome(
    h: ExportHandoffOut,
    identity: crate::identity::RuntimeIdentity,
    peer: Option<TrustedSourcePeer>,
    live: bool,
    policy: Result<(), String>,
    recipient_domain: u16,
    already_imported: bool,
    m: Map<[u8; 32], crate::ledger::CrossShardFact>,
) -> Result<bool, HandoffError> {
    if h.network_id@ != identity.network_id@ {
        Err(HandoffError::NetworkMismatch)
    } else if verify_outcome(h) is Err {
        Err(verify_outcome(h)->Err_0)
    } else if trust_outcome(h, peer, live) is Err {
        Err(trust_outcome(h, peer, live)->Err_0)
    } else if !id_text_ok(h.export_id@) {
        Err(HandoffError::InvalidExportId)
    } else if !id_text_ok(h.source@) {
        Err(HandoffError::InvalidSource)
    } else if !id_text_ok(h.to@) {
        Err(HandoffError::InvalidTo)
    } else if !amount_ok(h.amount@) {
        Err(HandoffError::InvalidAmount)
    } else if policy is Err {
        Err(HandoffError::RecipientPolicy(policy->Err_0))
    } else if recipient_domain != h.target_domain {
        Err(HandoffError::RecipientDomain)
    } else if identity.mode is Explicit && crate::ledger::domain_hi_of(h.target_domain)
        != identity.cluster_domain_hi {
        Err(HandoffError::ForeignTarget)
    } else if already_imported {
        Err(HandoffError::AlreadyImported)
    } else if m.dom().contains(id_of(h.export_id@)) {
        if same_provenance(m[id_of(h.export_id@)], h) {
            Ok(true)
        } else {
            Err(HandoffError::ProvenanceConflict)
        }
    } else {
        Ok(false)
    }
}

/// Answer to a handoff registration.
#[derive(Clone, Debug)]
pub struct RegisterHandoffOut {
    pub export_id: String,
    pub registered: bool,
    pub duplicate: bool,
    pub import_provenance: ImportProvenanceOut,
}

/// Registers a handoff's provenance in the cross-shard ledger after the
/// checks of [`register_outcome`]. `peer` and `source_live` come from the
/// handshake state, `recipient_policy` and `recipient_domain` from the
/// chain's rules for the handoff's `to`, `already_imported` from the
/// chain's import set. A refused handoff leaves the ledger as it was; an
/// accepted one (a duplicate too) is filed at `height`.
pub fn register_handoff(
    ledger: &mut crate::ledger::CrossShardLedger,
    input: &ExportHandoffOut,
    identity: &crate::identity::RuntimeIdentity,
    peer: &Option<TrustedSourcePeer>,
    source_live: bool,
    recipient_policy: Result<(), String>,
    recipient_domain: u16,
    already_imported: bool,
    height: u64,
) -> (r: Result<RegisterHandoffOut, HandoffError>)
    ensures
        match register_outcome(
            *input,
            *identity,
            *peer,
            source_live,
            recipient_policy,
            recipient_domain,
            already_imported,
            old(ledger)@,
        ) {
            Ok(dup) => {
                &&& r matches Ok(o)
                &&& o.duplicate == dup
                &&& o.registered == !dup
                &&& o.export_id@ == input.export_id@
                &&& o.import_provenance.to@ == hex_spec(id_of(input.to@)@)
                &&& o.import_provenance.target_domain == input.target_domain
                &&& o.import_provenance.amount == amount_of(input.amount@)
                &&& final(ledger)@ == crate::ledger::upsert_result(
                    old(ledger)@,
                    registered_fact(*input, height),
                ).0
            },
            Err(e) => r == Err::<RegisterHandoffOut, HandoffError>(e) && final(ledger)@ == old(
                ledger,
            )@,
        },
{
    if !str_eq(input.network_id.as_str(), identity.network_id.as_str()) {
        return Err(HandoffError::NetworkMismatch);
    }
    verify_handoff(input)?;
    check_trusted_source(input, peer, source_live)?;
    let export_id = match parse_spelled_id(input.export_id.as_str()) {
        Some(a) => a,
        None => return Err(HandoffError::InvalidExportId),
    };
    let source = match parse_spelled_id(input.source.as_str()) {
        Some(a) => a,
        None => return Err(HandoffError::InvalidSource),
    };
    let to = match parse_spelled_id(input.to.as_str()) {
        Some(a) => a,
        None => return Err(HandoffError::InvalidTo),
    };
    let amount = match crate::text::parse_u128_dec(trim_str(input.amount.as_str())) {
        Some(v) => v,
        None => return Err(HandoffError::InvalidAmount),
    };
    match recipient_policy {
        Ok(()) => {},
        Err(msg) => return Err(HandoffError::RecipientPolicy(msg)),
    }
    if recipient_domain != input.target_domain {
        return Err(HandoffError::RecipientDomain);
    }
    let target_hi = (input.target_domain / 256) as u8;
    if identity.mode.is_shard_enforced() && target_hi != identity.cluster_domain_hi {
        return Err(HandoffError::ForeignTarget);
    }
    if already_imported {
        return Err(HandoffError::AlreadyImported);
    }
    let duplicate = match ledger.fact(&export_id) {
        Some(existing) => {
            let same_source = match existing.source {
                Some(s) => crate::ledger::id_eq(&s, &source),
                None => false,
            };
            if crate::ledger::id_eq(&existing.to, &to) && existing.amount == amount
                && existing.target_domain_hi == target_hi && same_source {
                true
            } else {
                return Err(HandoffError::ProvenanceConflict);
            }
        },
        None => false,
    };
    let intent_id = parse_spelled_id(input.intent_id.as_str());
    ledger.record_handoff(
        export_id,
        input.source_domain_hi,
        source,
        to,
        input.target_domain,
        amount,
        height,
        intent_id,
    );
    Ok(
        RegisterHandoffOut {
            export_id: input.export_id.clone(),
            registered: !duplicate,
            duplicate,
            import_provenance: ImportProvenanceOut {
                to: hex32(&to),
                target_domain: input.target_domain,
                amount,
            },
        },
    )
}

} // verus!
