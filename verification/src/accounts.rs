//! Account answers (`/v1/accounts`, `/v1/account/{id}`): how an account is
//! shown on this shard, and how fresh the view of a foreign account's home
//! balance is.

use crate::api::{hex32, hex_spec};
use crate::text::dec;
use vstd::prelude::*;
use vstd::string::*;

verus! {

// ---------------------------------------------------------------------------
// Freshness of a foreign account's home view
// ---------------------------------------------------------------------------

/// How the home shard's view of a foreign account stands.
#[derive(Clone, Copy, Debug, PartialEq, Eq, Structural)]
pub enum HomeLookupState {
    Available,
    NotFound,
    Stale,
    Unavailable,
}

/// A trusted peer as the account view sees it: its node, domain byte,
/// whether it is live, and when its account stream last updated (if it
/// streams accounts).
#[derive(Clone, Debug)]
pub struct TrustedHomePeer {
    pub node_id: String,
    pub domain_hi: u8,
    pub live: bool,
    pub stream_last_update_ms: Option<u64>,
}

/// A live trusted peer of the home domain.
pub open spec fn home_peer(p: TrustedHomePeer, home_hi: u8) -> bool {
    p.domain_hi == home_hi && p.live
}

/// Its account stream updated within `window_ms` of `now_ms`.
pub open spec fn stream_fresh(p: TrustedHomePeer, now_ms: u64, window_ms: u64) -> bool {
    p.stream_last_update_ms matches Some(t) && (if now_ms >= t {
        now_ms - t
    } else {
        0
    }) <= window_ms
}

/// Its account stream exists and is not fresh.
pub open spec fn stream_stale(p: TrustedHomePeer, now_ms: u64, window_ms: u64) -> bool {
    p.stream_last_update_ms is Some && !stream_fresh(p, now_ms, window_ms)
}

/// State of the home view of a foreign account of domain `home_hi`.
/// `has_view` says whether a peer view of the account is held, `source` the
/// node it came from. Unavailable while bridge trust is refused or no
/// trusted peer of the home domain is live; otherwise, among those peers'
/// account streams: `Ok` if the view's source streams freshly, `NotFound`
/// if some stream is fresh but no view is held, `Stale` if some stream is
/// stale, else unavailable.
pub open spec fn home_state(
    bridge_refused: bool,
    home_hi: u8,
    has_view: bool,
    source: Option<Seq<char>>,
    now_ms: u64,
    window_ms: u64,
    peers: Seq<TrustedHomePeer>,
) -> HomeLookupState {
    let live = exists|i: int| 0 <= i < peers.len() && home_peer(#[trigger] peers[i], home_hi);
    let has_fresh = exists|i: int|
        0 <= i < peers.len() && home_peer(#[trigger] peers[i], home_hi) && stream_fresh(
            peers[i],
            now_ms,
            window_ms,
        );
    let has_stale = exists|i: int|
        0 <= i < peers.len() && home_peer(#[trigger] peers[i], home_hi) && stream_stale(
            peers[i],
            now_ms,
            window_ms,
        );
    let source_fresh = exists|i: int|
        0 <= i < peers.len() && home_peer(#[trigger] peers[i], home_hi) && stream_fresh(
            peers[i],
            now_ms,
            window_ms,
        ) && source == Some(peers[i].node_id@);
    if bridge_refused || !live {
        HomeLookupState::Unavailable
    } else if has_view && source_fresh {
        HomeLookupState::Available
    } else if has_fresh && !has_view {
        HomeLookupState::NotFound
    } else if has_stale {
        HomeLookupState::Stale
    } else {
        HomeLookupState::Unavailable
    }
}

/// State of the home view of a foreign account (see [`home_state`]).
pub fn foreign_home_lookup_state(
    bridge_refused: bool,
    home_hi: u8,
    has_view: bool,
    source: Option<&str>,
    now_ms: u64,
    window_ms: u64,
    peers: &Vec<TrustedHomePeer>,
) -> (r: HomeLookupState)
    ensures
        r == home_state(
            bridge_refused,
            home_hi,
            has_view,
            match source {
                Some(s) => Some(s@),
                None => None,
            },
            now_ms,
            window_ms,
            peers@,
        ),
{
    let ghost src = match source {
        Some(s) => Some(s@),
        None => None,
    };
    if bridge_refused {
        return HomeLookupState::Unavailable;
    }
    let mut live = false;
    let mut has_fresh = false;
    let mut has_stale = false;
    let mut source_fresh = false;
    let mut i: usize = 0;
    while i < peers.len()
        invariant
            i <= peers@.len(),
            src == match source {
                Some(s) => Some(s@),
                None => None,
            },
            live == exists|j: int| 0 <= j < i && home_peer(#[trigger] peers@[j], home_hi),
            has_fresh == exists|j: int|
                0 <= j < i && home_peer(#[trigger] peers@[j], home_hi) && stream_fresh(
                    peers@[j],
                    now_ms,
                    window_ms,
                ),
            has_stale == exists|j: int|
                0 <= j < i && home_peer(#[trigger] peers@[j], home_hi) && stream_stale(
                    peers@[j],
                    now_ms,
                    window_ms,
                ),
            source_fresh == exists|j: int|
                0 <= j < i && home_peer(#[trigger] peers@[j], home_hi) && stream_fresh(
                    peers@[j],
                    now_ms,
                    window_ms,
                ) && src == Some(peers@[j].node_id@),
        decreases peers@.len() - i,
    {
        let p = &peers[i];
        if p.domain_hi == home_hi && p.live {
            live = true;
            match p.stream_last_update_ms {
                Some(t) => {
                    let age = if now_ms >= t {
                        now_ms - t
                    } else {
                        0
                    };
                    if age <= window_ms {
                        has_fresh = true;
                        let same = match source {
                            Some(s) => crate::text::str_eq(p.node_id.as_str(), s),
                            None => false,
                        };
                        if same {
                            source_fresh = true;
                        }
                    } else {
                        has_stale = true;
                    }
                },
                None => {},
            }
        }
        i = i + 1;
    }
    if !live {
        HomeLookupState::Unavailable
    } else if has_view && source_fresh {
        HomeLookupState::Available
    } else if has_fresh && !has_view {
        HomeLookupState::NotFound
    } else if has_stale {
        HomeLookupState::Stale
    } else {
        HomeLookupState::Unavailable
    }
}

/// State of an account's home view: `Ok` for an account of this shard's
/// domain, else the foreign lookup state.
pub fn account_home_state(
    home_hi: u8,
    local_hi: u8,
    bridge_refused: bool,
    has_view: bool,
    source: Option<&str>,
    now_ms: u64,
    window_ms: u64,
    peers: &Vec<TrustedHomePeer>,
) -> (r: HomeLookupState)
    ensures
        r == if home_hi == local_hi {
            HomeLookupState::Available
        } else {
            home_state(
                bridge_refused,
                home_hi,
                has_view,
                match source {
                    Some(s) => Some(s@),
                    None => None,
                },
                now_ms,
                window_ms,
                peers@,
            )
        },
{
    if home_hi == local_hi {
        HomeLookupState::Available
    } else {
        foreign_home_lookup_state(bridge_refused, home_hi, has_view, source, now_ms, window_ms, peers)
    }
}

// ---------------------------------------------------------------------------
// The account answer
// ---------------------------------------------------------------------------

/// An account as the chain state records it.
#[derive(Clone, Debug)]
pub struct AccountView {
    pub balance_pwm: u128,
    pub staked: u128,
    pub marks: u32,
    pub marks_last_block: u64,
    pub initialized: bool,
    pub nonce: u64,
    pub rescue_address: Option<[u8; 32]>,
    pub active_policies: u16,
    pub dormant_policies: u16,
    pub finalized: bool,
    pub owner_kind: String,
    pub owner_display_name: String,
    pub owner_country_hint: String,
    pub company_metadata_commitment: Option<[u8; 32]>,
    pub external_verification_ref: Option<String>,
    pub requested_domain_lo: Option<u8>,
    pub ipv4_claimed_phase: Option<u8>,
}

/// What a trusted peer of the account's home shard reported of it.
#[derive(Clone, Debug)]
pub struct PeerAccountView {
    pub balance_pwm: u128,
    pub initialized: bool,
    pub source_node_id: String,
}

/// An account as served.
#[derive(Clone, Debug)]
pub struct AcctOut {
    pub id: String,
    /// For a foreign account `"0"`, so that older clients do not take the
    /// local view for a spendable balance.
    pub balance_pwm: String,
    pub local_state_balance: String,
    pub authoritative_home_balance: Option<String>,
    pub authoritative_home_initialized: Option<bool>,
    pub home_lookup_status: Option<&'static str>,
    pub spendable_on_this_shard: Option<String>,
    pub local_view_only: bool,
    pub staked: String,
    pub marks: u32,
    pub marks_last_block: u64,
    pub initialized: bool,
    pub nonce: u64,
    pub rescue_address: Option<String>,
    pub active_policies: u16,
    pub dormant_policies: u16,
    pub finalized: bool,
    pub owner_kind: String,
    pub owner_display_name: String,
    pub owner_country_hint: String,
    pub company_metadata_commitment: Option<String>,
    pub external_verification_ref: Option<String>,
    pub requested_domain_lo: Option<u8>,
    pub ipv4_claimed_phase: Option<u8>,
}

/// Accounts as served.
#[derive(Clone, Debug)]
pub struct AcctListOut {
    pub accounts: Vec<AcctOut>,
}

/// Label of a home lookup state.
pub open spec fn lookup_label(s: HomeLookupState) -> Seq<char> {
    match s {
        HomeLookupState::Available => "ok"@,
        HomeLookupState::NotFound => "not_found"@,
        HomeLookupState::Stale => "stale"@,
        HomeLookupState::Unavailable => "unavailable"@,
    }
}

pub open spec fn opt_hex(o: Option<[u8; 32]>) -> Option<Seq<char>> {
    match o {
        Some(a) => Some(hex_spec(a@)),
        None => None,
    }
}

fn opt_hex_string(o: &Option<[u8; 32]>) -> (r: Option<String>)
    ensures
        match r {
            Some(s) => opt_hex(*o) == Some(s@),
            None => o is None,
        },
{
    match o {
        Some(a) => Some(hex32(a)),
        None => None,
    }
}

fn dec128_string(n: u128) -> (r: String)
    ensures
        r@ == dec(n as nat),
{
    let mut s = String::new();
    crate::text::push_dec128(&mut s, n);
    s
}

/// The answer for an account: `home_hi` is the high byte of the account's
/// domain, `local_hi` this shard's. A foreign account shows its local
/// balance only as a local view (legacy balance `"0"`, nothing spendable
/// here) and its home balance where the home view is `Ok` and held; an
/// account of this shard is spendable here and its lookup status is
/// `local`.
pub fn acct_out_for_runtime(
    acct_id: &[u8; 32],
    home_hi: u8,
    ac: &AccountView,
    local_hi: u8,
    peer_view: Option<&PeerAccountView>,
    home_lookup: HomeLookupState,
) -> (r: AcctOut)
    ensures
        r.id@ == hex_spec(acct_id@),
        r.local_state_balance@ == dec(ac.balance_pwm as nat),
        r.local_view_only == (home_hi != local_hi),
        home_hi != local_hi ==> r.balance_pwm@ == "0"@,
        home_hi == local_hi ==> r.balance_pwm@ == dec(ac.balance_pwm as nat),
        home_hi == local_hi ==> (r.spendable_on_this_shard matches Some(s) && s@ == dec(
            ac.balance_pwm as nat,
        )),
        home_hi != local_hi ==> r.spendable_on_this_shard is None,
        home_hi == local_hi ==> (r.home_lookup_status matches Some(l) && l@ == "local"@),
        home_hi == local_hi ==> r.authoritative_home_balance is None
            && r.authoritative_home_initialized is None,
        home_hi != local_hi ==> (r.home_lookup_status matches Some(l) && l@ == if home_lookup
            == HomeLookupState::Available && peer_view is None {
            "unavailable"@
        } else {
            lookup_label(home_lookup)
        }),
        home_hi != local_hi ==> match (home_lookup, peer_view) {
            (HomeLookupState::Available, Some(v)) => (r.authoritative_home_balance matches Some(b) && b@
                == dec(v.balance_pwm as nat)) && r.authoritative_home_initialized == Some(
                v.initialized,
            ),
            _ => r.authoritative_home_balance is None && r.authoritative_home_initialized is None,
        },
        r.staked@ == dec(ac.staked as nat),
        r.marks == ac.marks,
        r.marks_last_block == ac.marks_last_block,
        r.initialized == ac.initialized,
        r.nonce == ac.nonce,
        match r.rescue_address {
            Some(s) => opt_hex(ac.rescue_address) == Some(s@),
            None => ac.rescue_address is None,
        },
        r.active_policies == ac.active_policies,
        r.dormant_policies == ac.dormant_policies,
        r.finalized == ac.finalized,
        r.owner_kind@ == ac.owner_kind@,
        r.owner_display_name@ == ac.owner_display_name@,
        r.owner_country_hint@ == ac.owner_country_hint@,
        match r.company_metadata_commitment {
            Some(s) => opt_hex(ac.company_metadata_commitment) == Some(s@),
            None => ac.company_metadata_commitment is None,
        },
        r.external_verification_ref == ac.external_verification_ref,
        r.requested_domain_lo == ac.requested_domain_lo,
        r.ipv4_claimed_phase == ac.ipv4_claimed_phase,
{
    proof {
        reveal_strlit("0");
    }
    let local_state_balance = dec128_string(ac.balance_pwm);
    let is_foreign = home_hi != local_hi;
    let legacy_balance = if is_foreign {
        String::from_str("0")
    } else {
        dec128_string(ac.balance_pwm)
    };
    let (home_balance, home_initialized, status): (
        Option<String>,
        Option<bool>,
        Option<&'static str>,
    ) = if is_foreign {
        match home_lookup {
            HomeLookupState::Available => match peer_view {
                Some(v) => (Some(dec128_string(v.balance_pwm)), Some(v.initialized), Some("ok")),
                None => (None, None, Some("unavailable")),
            },
            HomeLookupState::NotFound => (None, None, Some("not_found")),
            HomeLookupState::Stale => (None, None, Some("stale")),
            HomeLookupState::Unavailable => (None, None, Some("unavailable")),
        }
    } else {
        (None, None, Some("local"))
    };
    let external_verification_ref = match &ac.external_verification_ref {
        Some(s) => Some(s.clone()),
        None => None,
    };
    AcctOut {
        id: hex32(acct_id),
        balance_pwm: legacy_balance,
        local_state_balance,
        authoritative_home_balance: home_balance,
        authoritative_home_initialized: home_initialized,
        home_lookup_status: status,
        spendable_on_this_shard: if is_foreign {
            None
        } else {
            Some(dec128_string(ac.balance_pwm))
        },
        local_view_only: is_foreign,
        staked: dec128_string(ac.staked),
        marks: ac.marks,
        marks_last_block: ac.marks_last_block,
        initialized: ac.initialized,
        nonce: ac.nonce,
        rescue_address: opt_hex_string(&ac.rescue_address),
        active_policies: ac.active_policies,
        dormant_policies: ac.dormant_policies,
        finalized: ac.finalized,
        owner_kind: ac.owner_kind.clone(),
        owner_display_name: ac.owner_display_name.clone(),
        owner_country_hint: ac.owner_country_hint.clone(),
        company_metadata_commitment: opt_hex_string(&ac.company_metadata_commitment),
        external_verification_ref,
        requested_domain_lo: ac.requested_domain_lo,
        ipv4_claimed_phase: ac.ipv4_claimed_phase,
    }
}

} // verus!
