//! Operator-triggered cross-shard backfill: which peers the node may ask
//! for facts, how their status is trusted, which offered facts it files,
//! and how each import attempt is counted.

use crate::federation::{label_lt, str_lt};
use crate::text::{ascii_lower, lower_eq, trim, trim_str, str_eq};
use vstd::prelude::*;
use vstd::string::*;

verus! {

// ---------------------------------------------------------------------------
// Parsed URLs
// ---------------------------------------------------------------------------

/// Host of a parsed URL.
#[derive(Clone, Debug, PartialEq, Eq)]
pub enum UrlHost {
    Ipv4([u8; 4]),
    Ipv6([u16; 8]),
    Domain(String),
    Absent,
}

/// The pieces of a parsed URL that the peer checks read.
#[derive(Clone, Debug)]
pub struct UrlParts {
    pub scheme: String,
    pub path: String,
    pub query: Option<String>,
    pub fragment: Option<String>,
    pub host: UrlHost,
    /// The explicit port, else the scheme's default port.
    pub port: Option<u16>,
}

pub enum UrlHostView {
    Ipv4([u8; 4]),
    Ipv6([u16; 8]),
    Domain(Seq<char>),
    Absent,
}

pub struct UrlPartsView {
    pub scheme: Seq<char>,
    pub path: Seq<char>,
    pub query: Option<Seq<char>>,
    pub fragment: Option<Seq<char>>,
    pub host: UrlHostView,
    pub port: Option<u16>,
}

pub open spec fn opt_view(o: Option<String>) -> Option<Seq<char>> {
    match o {
        Some(s) => Some(s@),
        None => None,
    }
}

impl View for UrlParts {
    type V = UrlPartsView;

    open spec fn view(&self) -> UrlPartsView {
        UrlPartsView {
            scheme: self.scheme@,
            path: self.path@,
            query: opt_view(self.query),
            fragment: opt_view(self.fragment),
            host: match self.host {
                UrlHost::Ipv4(a) => UrlHostView::Ipv4(a),
                UrlHost::Ipv6(a) => UrlHostView::Ipv6(a),
                UrlHost::Domain(d) => UrlHostView::Domain(d@),
                UrlHost::Absent => UrlHostView::Absent,
            },
            port: self.port,
        }
    }
}

/// What `url::Url::parse` makes of a text: the URL's pieces, or the
/// message of its parse error.
pub uninterp spec fn url_parse(raw: Seq<char>) -> Result<UrlPartsView, Seq<char>>;

/// `url::Url::parse`, with the pieces the checks read copied out; the
/// result is named [`url_parse`].
#[verifier::external_body]
fn parse_url(raw: &str) -> (r: Result<UrlParts, String>)
    ensures
        match r {
            Ok(p) => url_parse(raw@) == Ok::<UrlPartsView, Seq<char>>(p@),
            Err(e) => url_parse(raw@) == Err::<UrlPartsView, Seq<char>>(e@),
        },
{
    let url = url::Url::parse(raw).map_err(|e| e.to_string())?;
    let host = match url.host() {
        Some(url::Host::Ipv4(ip)) => UrlHost::Ipv4(ip.octets()),
        Some(url::Host::Ipv6(ip)) => UrlHost::Ipv6(ip.segments()),
        Some(url::Host::Domain(d)) => UrlHost::Domain(d.to_string()),
        None => UrlHost::Absent,
    };
    let query = url.query().map(|q| q.to_string());
    let fragment = url.fragment().map(|f| f.to_string());
    let port = url.port_or_known_default();
    Ok(UrlParts { scheme: url.scheme().to_string(), path: url.path().to_string(), query, fragment, host, port })
}

// ---------------------------------------------------------------------------
// Relay peers
// ---------------------------------------------------------------------------

/// An IP address.
#[derive(Clone, Copy, Debug, PartialEq, Eq)]
pub enum PeerIp {
    V4([u8; 4]),
    V6([u16; 8]),
}

/// A configured relay peer: its socket address (IPv6 flow label and scope
/// id included, both 0 for IPv4) and how the address is written.
#[derive(Clone, Debug)]
pub struct RelayPeer {
    pub ip: PeerIp,
    pub port: u16,
    pub flowinfo: u32,
    pub scope_id: u32,
    pub display: String,
}

/// Loopback addresses: `127.0.0.0/8` and `::1`.
pub open spec fn ip_loopback(ip: PeerIp) -> bool {
    match ip {
        PeerIp::V4(a) => a[0] == 127,
        PeerIp::V6(s) => s[0] == 0 && s[1] == 0 && s[2] == 0 && s[3] == 0 && s[4] == 0 && s[5] == 0
            && s[6] == 0 && s[7] == 1,
    }
}

fn is_loopback(ip: &PeerIp) -> (r: bool)
    ensures
        r == ip_loopback(*ip),
{
    match ip {
        PeerIp::V4(a) => a[0] == 127,
        PeerIp::V6(s) => s[0] == 0 && s[1] == 0 && s[2] == 0 && s[3] == 0 && s[4] == 0 && s[5]
            == 0 && s[6] == 0 && s[7] == 1,
    }
}

/// Whether a relay peer is the socket address `ip:port` (no flow label,
/// no scope).
pub open spec fn peer_is(p: RelayPeer, ip: PeerIp, port: u16) -> bool {
    p.ip == ip && p.port == port && p.flowinfo == 0 && p.scope_id == 0
}

fn ip_eq(a: &PeerIp, b: &PeerIp) -> (r: bool)
    ensures
        r == (*a == *b),
{
    match (a, b) {
        (PeerIp::V4(x), PeerIp::V4(y)) => {
            let e = x[0] == y[0] && x[1] == y[1] && x[2] == y[2] && x[3] == y[3];
            assert(e ==> *x =~= *y);
            e
        },
        (PeerIp::V6(x), PeerIp::V6(y)) => {
            let e = x[0] == y[0] && x[1] == y[1] && x[2] == y[2] && x[3] == y[3] && x[4] == y[4]
                && x[5] == y[5] && x[6] == y[6] && x[7] == y[7];
            assert(e ==> *x =~= *y);
            e
        },
        _ => false,
    }
}

/// `i` is the first relay peer that is `ip:port`.
pub open spec fn first_peer(s: Seq<RelayPeer>, ip: PeerIp, port: u16, i: int) -> bool {
    &&& 0 <= i < s.len()
    &&& peer_is(s[i], ip, port)
    &&& forall|j: int| 0 <= j < i ==> !peer_is(#[trigger] s[j], ip, port)
}

fn find_peer(s: &Vec<RelayPeer>, ip: &PeerIp, port: u16) -> (r: Option<usize>)
    ensures
        match r {
            Some(i) => first_peer(s@, *ip, port, i as int),
            None => forall|j: int| 0 <= j < s@.len() ==> !peer_is(#[trigger] s@[j], *ip, port),
        },
{
    let mut i: usize = 0;
    while i < s.len()
        invariant
            i <= s@.len(),
            forall|j: int| 0 <= j < i ==> !peer_is(#[trigger] s@[j], *ip, port),
        decreases s@.len() - i,
    {
        let p = &s[i];
        if ip_eq(&p.ip, ip) && p.port == port && p.flowinfo == 0 && p.scope_id == 0 {
            return Some(i);
        }
        i = i + 1;
    }
    None
}

// ---------------------------------------------------------------------------
// Operator-named peer
// ---------------------------------------------------------------------------

/// Why an operator-named peer base is refused (all answered with 400).
#[derive(Clone, Debug, PartialEq, Eq)]
pub enum PeerBaseError {
    /// The text is no URL; the parse error's message.
    InvalidUrl(String),
    Scheme,
    NotBareOrigin,
    Loopback,
    DomainHost,
    NoHost,
    NoPort,
    NotRelayPeer,
}

pub enum PeerBaseErrorView {
    InvalidUrl(Seq<char>),
    Scheme,
    NotBareOrigin,
    Loopback,
    DomainHost,
    NoHost,
    NoPort,
    NotRelayPeer,
}

impl View for PeerBaseError {
    type V = PeerBaseErrorView;

    open spec fn view(&self) -> PeerBaseErrorView {
        match self {
            PeerBaseError::InvalidUrl(m) => PeerBaseErrorView::InvalidUrl(m@),
            PeerBaseError::Scheme => PeerBaseErrorView::Scheme,
            PeerBaseError::NotBareOrigin => PeerBaseErrorView::NotBareOrigin,
            PeerBaseError::Loopback => PeerBaseErrorView::Loopback,
            PeerBaseError::DomainHost => PeerBaseErrorView::DomainHost,
            PeerBaseError::NoHost => PeerBaseErrorView::NoHost,
            PeerBaseError::NoPort => PeerBaseErrorView::NoPort,
            PeerBaseError::NotRelayPeer => PeerBaseErrorView::NotRelayPeer,
        }
    }
}

/// Message of a refusal.
pub open spec fn peer_base_error_message(e: PeerBaseErrorView) -> Seq<char> {
    match e {
        PeerBaseErrorView::InvalidUrl(m) => "invalid peer_base URL: "@ + m,
        PeerBaseErrorView::Scheme => "peer_base scheme must be http or https"@,
        PeerBaseErrorView::NotBareOrigin => "peer_base must be a bare peer origin URL"@,
        PeerBaseErrorView::Loopback => "peer_base loopback host is not allowed"@,
        PeerBaseErrorView::DomainHost => "peer_base host must be a configured IP relay seed"@,
        PeerBaseErrorView::NoHost => "peer_base must include a host"@,
        PeerBaseErrorView::NoPort => "peer_base must include a port"@,
        PeerBaseErrorView::NotRelayPeer => "peer_base is not in the configured relay peer set"@,
    }
}

impl PeerBaseError {
    /// Message of the refusal.
    pub fn message(&self) -> (r: String)
        ensures
            r@ == peer_base_error_message(self@),
    {
        proof {
            reveal_strlit("invalid peer_base URL: ");
        }
        match self {
            PeerBaseError::InvalidUrl(m) => {
                let mut s = String::from_str("invalid peer_base URL: ");
                s.append(m.as_str());
                s
            },
            PeerBaseError::Scheme => String::from_str("peer_base scheme must be http or https"),
            PeerBaseError::NotBareOrigin => String::from_str(
                "peer_base must be a bare peer origin URL",
            ),
            PeerBaseError::Loopback => String::from_str("peer_base loopback host is not allowed"),
            PeerBaseError::DomainHost => String::from_str(
                "peer_base host must be a configured IP relay seed",
            ),
            PeerBaseError::NoHost => String::from_str("peer_base must include a host"),
            PeerBaseError::NoPort => String::from_str("peer_base must include a port"),
            PeerBaseError::NotRelayPeer => String::from_str(
                "peer_base is not in the configured relay peer set",
            ),
        }
    }
}

/// The IP a URL host names, or why the host is refused.
pub open spec fn host_ip(h: UrlHostView) -> Result<PeerIp, PeerBaseErrorView> {
    match h {
        UrlHostView::Ipv4(a) => Ok(PeerIp::V4(a)),
        UrlHostView::Ipv6(a) => Ok(PeerIp::V6(a)),
        UrlHostView::Domain(d) => if ascii_lower(d) == "localhost"@ {
            Err(PeerBaseErrorView::Loopback)
        } else {
            Err(PeerBaseErrorView::DomainHost)
        },
        UrlHostView::Absent => Err(PeerBaseErrorView::NoHost),
    }
}

/// What an operator-named peer base resolves to against the configured
/// relay peers: `scheme://address` of the relay peer it names, or why it
/// is refused. The text (trimmed) must parse as an `http` or `https` URL
/// with nothing past the origin, whose host is a non-loopback IP, and whose
/// address (the explicit port, else the scheme's) is a relay peer's.
pub open spec fn peer_base_outcome(raw: Seq<char>, relay: Seq<RelayPeer>) -> Result<
    Seq<char>,
    PeerBaseErrorView,
> {
    match url_parse(trim(raw)) {
        Err(m) => Err(PeerBaseErrorView::InvalidUrl(m)),
        Ok(u) => if u.scheme != "http"@ && u.scheme != "https"@ {
            Err(PeerBaseErrorView::Scheme)
        } else if u.path != "/"@ || u.query is Some || u.fragment is Some {
            Err(PeerBaseErrorView::NotBareOrigin)
        } else {
            match host_ip(u.host) {
                Err(e) => Err(e),
                Ok(ip) => if ip_loopback(ip) {
                    Err(PeerBaseErrorView::Loopback)
                } else {
                    match u.port {
                        None => Err(PeerBaseErrorView::NoPort),
                        Some(port) => if exists|i: int| first_peer(relay, ip, port, i) {
                            Ok(
                                u.scheme + "://"@ + relay[choose|i: int|
                                    first_peer(relay, ip, port, i)].display@,
                            )
                        } else {
                            Err(PeerBaseErrorView::NotRelayPeer)
                        },
                    }
                },
            }
        },
    }
}

proof fn lemma_first_peer_unique(s: Seq<RelayPeer>, ip: PeerIp, port: u16, i: int, j: int)
    requires
        first_peer(s, ip, port, i),
        first_peer(s, ip, port, j),
    ensures
        i == j,
{
    if i < j {
        assert(!peer_is(s[i], ip, port));
    } else if j < i {
        assert(!peer_is(s[j], ip, port));
    }
}

/// Resolves an operator-named peer base against the configured relay
/// peers (see [`peer_base_outcome`]).
pub fn peer_base_from_input(raw: &str, relay: &Vec<RelayPeer>) -> (r: Result<String, PeerBaseError>)
    ensures
        match peer_base_outcome(raw@, relay@) {
            Ok(s) => r matches Ok(t) && t@ == s,
            Err(e) => r matches Err(f) && f@ == e,
        },
{
    proof {
        reveal_strlit("http");
        reveal_strlit("https");
        reveal_strlit("/");
        reveal_strlit("://");
        reveal_strlit("localhost");
    }
    let url = match parse_url(trim_str(raw)) {
        Ok(u) => u,
        Err(m) => return Err(PeerBaseError::InvalidUrl(m)),
    };
    if !str_eq(url.scheme.as_str(), "http") && !str_eq(url.scheme.as_str(), "https") {
        return Err(PeerBaseError::Scheme);
    }
    if !str_eq(url.path.as_str(), "/") || url.query.is_some() || url.fragment.is_some() {
        return Err(PeerBaseError::NotBareOrigin);
    }
    let ip = match &url.host {
        UrlHost::Ipv4(a) => PeerIp::V4(*a),
        UrlHost::Ipv6(a) => PeerIp::V6(*a),
        UrlHost::Domain(d) => {
            if lower_eq(d.as_str(), "localhost") {
                return Err(PeerBaseError::Loopback);
            }
            return Err(PeerBaseError::DomainHost);
        },
        UrlHost::Absent => return Err(PeerBaseError::NoHost),
    };
    if is_loopback(&ip) {
        return Err(PeerBaseError::Loopback);
    }
    let port = match url.port {
        Some(p) => p,
        None => return Err(PeerBaseError::NoPort),
    };
    match find_peer(relay, &ip, port) {
        None => Err(PeerBaseError::NotRelayPeer),
        Some(i) => {
            let mut s = url.scheme.clone();
            s.append("://");
            s.append(relay[i].display.as_str());
            proof {
                let c = choose|k: int| first_peer(relay@, ip, port, k);
                lemma_first_peer_unique(relay@, ip, port, c, i as int);
            }
            Ok(s)
        },
    }
}

// ---------------------------------------------------------------------------
// The peers a backfill asks
// ---------------------------------------------------------------------------

/// The texts of a list of strings.
pub open spec fn texts(v: Seq<String>) -> Seq<Seq<char>> {
    v.map_values(|s: String| s@)
}

/// Strictly ascending in `String` order (so no text occurs twice).
pub open spec fn strictly_ascending(v: Seq<Seq<char>>) -> bool {
    forall|a: int, b: int| 0 <= a < b < v.len() ==> label_lt(#[trigger] v[a], #[trigger] v[b])
}

fn insert_sorted(v: &mut Vec<String>, s: String)
    requires
        strictly_ascending(texts(old(v)@)),
    ensures
        strictly_ascending(texts(final(v)@)),
        forall|x: Seq<char>|
            texts(final(v)@).contains(x) <==> (texts(old(v)@).contains(x) || x == s@),
{
    let ghost old_t = texts(v@);
    let mut i: usize = 0;
    while i < v.len() && str_lt(v[i].as_str(), s.as_str())
        invariant
            i <= v@.len(),
            texts(v@) == old_t,
            forall|j: int| 0 <= j < i ==> label_lt(#[trigger] old_t[j], s@),
        decreases v@.len() - i,
    {
        i = i + 1;
    }
    if i < v.len() && str_eq(v[i].as_str(), s.as_str()) {
        assert(old_t[i as int] == s@);
        assert(old_t.contains(s@));
        return;
    }
    proof {
        if i < old_t.len() {
            crate::federation::lemma_label_lt_total(old_t[i as int], s@);
        }
    }
    let ghost sv = s@;
    v.insert(i, s);
    let ghost new_t = texts(v@);
    assert(new_t =~= old_t.subrange(0, i as int).push(sv) + old_t.subrange(i as int, old_t.len() as int));
    assert forall|a: int, b: int| 0 <= a < b < new_t.len() implies label_lt(
        #[trigger] new_t[a],
        #[trigger] new_t[b],
    ) by {
        if b < i {
        } else if a < i && b == i {
        } else if a < i && b > i {
            assert(label_lt(old_t[a], sv));
            assert(label_lt(sv, old_t[i as int]) || i == b - 1);
            if b - 1 > i {
                assert(label_lt(old_t[i as int], old_t[b - 1]));
                crate::federation::lemma_label_lt_trans(sv, old_t[i as int], old_t[b - 1]);
            }
            crate::federation::lemma_label_lt_trans(old_t[a], sv, old_t[b - 1]);
        } else if a == i {
            if b - 1 > i {
                assert(label_lt(old_t[i as int], old_t[b - 1]));
                crate::federation::lemma_label_lt_trans(sv, old_t[i as int], old_t[b - 1]);
            }
        } else {
            assert(old_t[a - 1] == new_t[a]);
            assert(old_t[b - 1] == new_t[b]);
        }
    }
    assert forall|x: Seq<char>| new_t.contains(x) <==> (old_t.contains(x) || x == sv) by {
        if new_t.contains(x) {
            let k = choose|k: int| 0 <= k < new_t.len() && new_t[k] == x;
            if k < i {
                assert(old_t[k] == x);
            } else if k > i {
                assert(old_t[k - 1] == x);
            }
        }
        if old_t.contains(x) {
            let k = choose|k: int| 0 <= k < old_t.len() && old_t[k] == x;
            if k < i {
                assert(new_t[k] == x);
            } else {
                assert(new_t[k + 1] == x);
            }
        }
        if x == sv {
            assert(new_t[i as int] == x);
        }
    }
}

/// Base URL of a relay peer.
pub open spec fn relay_base(p: RelayPeer) -> Seq<char> {
    "http://"@ + p.display@
}

/// The peers a backfill asks, in `String` order without repeats: the
/// operator-named peer base if there is one (it must resolve, see
/// [`peer_base_outcome`]), else every configured relay peer.
pub fn backfill_peers(peer_base: Option<String>, relay: &Vec<RelayPeer>) -> (r: Result<
    Vec<String>,
    PeerBaseError,
>)
    ensures
        match peer_base {
            Some(b) => match peer_base_outcome(b@, relay@) {
                Ok(s) => r matches Ok(v) && texts(v@) == seq![s],
                Err(e) => r matches Err(f) && f@ == e,
            },
            None => r matches Ok(v) && strictly_ascending(texts(v@)) && forall|x: Seq<char>|
                texts(v@).contains(x) <==> exists|i: int|
                    0 <= i < relay@.len() && x == relay_base(#[trigger] relay@[i]),
        },
{
    proof {
        reveal_strlit("http://");
    }
    match peer_base {
        Some(b) => {
            let p = peer_base_from_input(b.as_str(), relay)?;
            let mut v: Vec<String> = Vec::new();
            v.push(p);
            assert(texts(v@) =~= seq![v@[0]@]);
            Ok(v)
        },
        None => {
            let mut v: Vec<String> = Vec::new();
            let mut i: usize = 0;
            assert(texts(v@) =~= Seq::<Seq<char>>::empty());
            while i < relay.len()
                invariant
                    i <= relay@.len(),
                    strictly_ascending(texts(v@)),
                    forall|x: Seq<char>|
                        texts(v@).contains(x) <==> exists|j: int|
                            0 <= j < i && x == relay_base(#[trigger] relay@[j]),
                decreases relay@.len() - i,
            {
                let mut s = String::from_str("http://");
                s.append(relay[i].display.as_str());
                insert_sorted(&mut v, s);
                proof {
                    assert forall|x: Seq<char>| texts(v@).contains(x) <==> exists|j: int|
                        0 <= j < i + 1 && x == relay_base(#[trigger] relay@[j]) by {
                        if x == relay_base(relay@[i as int]) {
                            assert(0 <= i < i + 1);
                        }
                        if exists|j: int| 0 <= j < i + 1 && x == relay_base(#[trigger] relay@[j]) {
                            let j = choose|j: int|
                                0 <= j < i + 1 && x == relay_base(#[trigger] relay@[j]);
                            if j < i {
                                assert(exists|k: int| 0 <= k < i && x == relay_base(#[trigger] relay@[k]));
                            }
                        }
                    }
                }
                i = i + 1;
            }
            Ok(v)
        },
    }
}

// ---------------------------------------------------------------------------
// Trusting a peer's status
// ---------------------------------------------------------------------------

/// What a peer's `/v1/status` answer says (absent fields read as
/// not ready and unset).
#[derive(Clone, Debug)]
pub struct PeerStatusObs {
    pub ready: bool,
    pub network_id: Option<String>,
    pub effective_genesis_hash: Option<String>,
    pub genesis_guard: Option<String>,
}

/// `{:?}` of an optional string.
pub open spec fn opt_debug(o: Option<String>) -> Seq<char> {
    match o {
        None => "None"@,
        Some(s) => "Some("@ + crate::text::debug_str(s@) + ")"@,
    }
}

fn opt_debug_string(o: &Option<String>) -> (r: String)
    ensures
        r@ == opt_debug(*o),
{
    proof {
        reveal_strlit("None");
        reveal_strlit("Some(");
        reveal_strlit(")");
    }
    match o {
        None => String::from_str("None"),
        Some(s) => {
            let mut r = String::from_str("Some(");
            let q = crate::text::debug_quoted(s.as_str());
            r.append(q.as_str());
            r.append(")");
            r
        },
    }
}

fn opt_is(o: &Option<String>, s: &str) -> (r: bool)
    ensures
        r == (o matches Some(t) && t@ == s@),
{
    match o {
        Some(t) => str_eq(t.as_str(), s),
        None => false,
    }
}

/// Whether a backfill may trust the peer at `base`, from its status
/// answer: ready, genesis guard unset or `ok`, on this network, and on this
/// genesis where the node knows its genesis hash. The refusal names the
/// first check that fails.
pub open spec fn peer_status_outcome(
    base: Seq<char>,
    st: PeerStatusObs,
    network_id: Seq<char>,
    genesis_hash: Option<Seq<char>>,
) -> Result<(), Seq<char>> {
    if !st.ready {
        Err("peer "@ + base + " not ready"@)
    } else if st.genesis_guard matches Some(g) && g@ != "ok"@ {
        Err("peer "@ + base + " genesis_guard blocked"@)
    } else if !(st.network_id matches Some(n) && n@ == network_id) {
        Err("peer "@ + base + " network mismatch "@ + opt_debug(st.network_id) + " != "@ + network_id)
    } else if genesis_hash matches Some(g) && !(st.effective_genesis_hash matches Some(e) && e@
        == g) {
        Err(
            "peer "@ + base + " genesis mismatch "@ + opt_debug(st.effective_genesis_hash) + " != "@
                + genesis_hash->0,
        )
    } else {
        Ok(())
    }
}

/// Checks a peer's status answer before a backfill asks it for facts.
pub fn check_peer_status(
    base: &str,
    st: &PeerStatusObs,
    network_id: &str,
    genesis_hash: Option<&str>,
) -> (r: Result<(), String>)
    ensures
        match peer_status_outcome(
            base@,
            *st,
            network_id@,
            match genesis_hash {
                Some(g) => Some(g@),
                None => None,
            },
        ) {
            Ok(()) => r is Ok,
            Err(m) => r matches Err(e) && e@ == m,
        },
{
    proof {
        reveal_strlit("peer ");
        reveal_strlit(" not ready");
        reveal_strlit("ok");
        reveal_strlit(" genesis_guard blocked");
        reveal_strlit(" network mismatch ");
        reveal_strlit(" genesis mismatch ");
        reveal_strlit(" != ");
    }
    if !st.ready {
        let mut m = String::from_str("peer ");
        m.append(base);
        m.append(" not ready");
        return Err(m);
    }
    let guard_ok = match &st.genesis_guard {
        Some(g) => str_eq(g.as_str(), "ok"),
        None => true,
    };
    if !guard_ok {
        let mut m = String::from_str("peer ");
        m.append(base);
        m.append(" genesis_guard blocked");
        return Err(m);
    }
    if !opt_is(&st.network_id, network_id) {
        let mut m = String::from_str("peer ");
        m.append(base);
        m.append(" network mismatch ");
        let d = opt_debug_string(&st.network_id);
        m.append(d.as_str());
        m.append(" != ");
        m.append(network_id);
        return Err(m);
    }
    if let Some(expected) = genesis_hash {
        if !opt_is(&st.effective_genesis_hash, expected) {
            let mut m = String::from_str("peer ");
            m.append(base);
            m.append(" genesis mismatch ");
            let d = opt_debug_string(&st.effective_genesis_hash);
            m.append(d.as_str());
            m.append(" != ");
            m.append(expected);
            return Err(m);
        }
    }
    Ok(())
}

// ---------------------------------------------------------------------------
// Filing offered facts
// ---------------------------------------------------------------------------

/// Whether an offered fact can be filed here: its export id, recipient and
/// source are 32-byte hex ids and its target is this shard's domain byte.
pub open spec fn fact_fileable(f: crate::api::CrossShardFactOut, local_hi: u8) -> bool {
    &&& crate::api::id_text_ok(f.export_id@)
    &&& crate::api::id_text_ok(f.to@)
    &&& f.target_domain_hi == local_hi
    &&& f.source matches Some(s) && crate::api::id_text_ok(s@)
}

/// Domain code an offered fact is filed under: its target domain byte
/// followed by 1.
pub open spec fn backfill_target_domain(target_domain_hi: u8) -> u16 {
    (target_domain_hi as u16 * 256 + 1) as u16
}

/// The fact a backfill files for an offered fact at `height`.
pub open spec fn backfill_fact(f: crate::api::CrossShardFactOut, height: u64) -> crate::ledger::CrossShardFact {
    crate::ledger::handoff_fact(
        crate::handoff::id_of(f.export_id@),
        f.source_domain_hi,
        crate::handoff::id_of(f.source->0@),
        crate::handoff::id_of(f.to@),
        backfill_target_domain(f.target_domain_hi),
        f.amount,
        height,
        None,
    )
}

fn decode_id(s: &str) -> (r: Option<[u8; 32]>)
    ensures
        r is Some <==> crate::api::id_text_ok(s@),
        r matches Some(a) ==> a == crate::handoff::id_of(s@),
{
    crate::handoff::parse_spelled_id(s)
}

/// Files an offered fact as a registered handoff at `height` when it can
/// be filed here, and returns its export id and recipient; otherwise the
/// ledger is left as it was.
pub fn file_backfill_fact(
    ledger: &mut crate::ledger::CrossShardLedger,
    fact: &crate::api::CrossShardFactOut,
    local_hi: u8,
    height: u64,
) -> (r: Option<([u8; 32], [u8; 32])>)
    ensures
        r is Some <==> fact_fileable(*fact, local_hi),
        r is None ==> final(ledger)@ == old(ledger)@,
        r matches Some(ids) ==> ids.0 == crate::handoff::id_of(fact.export_id@) && ids.1
            == crate::handoff::id_of(fact.to@) && final(ledger)@ == crate::ledger::upsert_result(
            old(ledger)@,
            backfill_fact(*fact, height),
        ).0,
{
    let export_id = decode_id(fact.export_id.as_str())?;
    let to = decode_id(fact.to.as_str())?;
    if fact.target_domain_hi != local_hi {
        return None;
    }
    let source = match &fact.source {
        Some(s) => decode_id(s.as_str())?,
        None => return None,
    };
    ledger.record_handoff(
        export_id,
        fact.source_domain_hi,
        source,
        to,
        fact.target_domain_hi as u16 * 256 + 1,
        fact.amount,
        height,
        None,
    );
    Some((export_id, to))
}

// ---------------------------------------------------------------------------
// The backfill request and its tally
// ---------------------------------------------------------------------------

/// Facts asked of a peer when the request names no limit.
pub const BACKFILL_DEFAULT_LIMIT: usize = 256;

/// Body of `POST /v1/cross-shard/backfill`.
#[derive(Clone, Debug)]
pub struct BackfillIn {
    pub from_height: Option<u64>,
    pub limit: Option<usize>,
    pub peer_base: Option<String>,
}

/// Height and fact limit a backfill asks from: the given height (else 0)
/// and the given limit (else 256) clamped to `1..=4096`.
pub fn backfill_window(input: &BackfillIn) -> (r: (u64, usize))
    ensures
        r.0 == match input.from_height {
            Some(h) => h,
            None => 0,
        },
        r.1 == ({
            let l = match input.limit {
                Some(l) => l,
                None => BACKFILL_DEFAULT_LIMIT,
            };
            if l < 1 {
                1
            } else if l > 4096 {
                4096
            } else {
                l
            }
        }),
{
    let from = match input.from_height {
        Some(h) => h,
        None => 0,
    };
    let l = match input.limit {
        Some(l) => l,
        None => BACKFILL_DEFAULT_LIMIT,
    };
    let limit = if l < 1 {
        1
    } else if l > 4096 {
        4096
    } else {
        l
    };
    (from, limit)
}

/// Whether `needle` occurs in `hay`.
pub open spec fn contains_text(hay: Seq<char>, needle: Seq<char>) -> bool {
    exists|i: int| 0 <= i <= hay.len() - needle.len() && #[trigger] hay.subrange(i, i + needle.len()) == needle
}

/// `str::contains` for a string needle.
pub fn str_contains(hay: &str, needle: &str) -> (r: bool)
    ensures
        r == contains_text(hay@, needle@),
{
    let n = hay.unicode_len();
    let m = needle.unicode_len();
    if m > n {
        return false;
    }
    let mut i: usize = 0;
    while i <= n - m
        invariant
            n == hay@.len(),
            m == needle@.len(),
            m <= n,
            i <= n - m + 1,
            forall|k: int| 0 <= k < i ==> #[trigger] hay@.subrange(k, k + m) != needle@,
        decreases n - m + 1 - i,
    {
        let mut j: usize = 0;
        while j < m && hay.get_char(i + j) == needle.get_char(j)
            invariant
                n == hay@.len(),
                m == needle@.len(),
                i + m <= n,
                j <= m,
                forall|t: int| 0 <= t < j ==> hay@[i + t] == needle@[t],
            decreases m - j,
        {
            j = j + 1;
        }
        if j == m {
            assert(hay@.subrange(i as int, i + m) =~= needle@);
            return true;
        }
        assert(hay@.subrange(i as int, i + m)[j as int] != needle@[j as int]);
        i = i + 1;
    }
    assert forall|k: int| 0 <= k <= hay@.len() - needle@.len() implies #[trigger] hay@.subrange(
        k,
        k + needle@.len(),
    ) != needle@ by {}
    false
}

/// How one import attempt of a backfill ended.
#[derive(Clone, Copy, Debug, PartialEq, Eq)]
pub enum ImportTally {
    Imported,
    SkippedExisting,
    Rejected,
}

/// How an import's answer is counted: accepted, refused as already
/// imported (a 409 naming the duplicate-import text or "already
/// consumed"), or otherwise refused.
pub open spec fn import_tally(result: Result<(), (u16, Seq<char>)>, dup_text: Seq<char>) -> ImportTally {
    match result {
        Ok(()) => ImportTally::Imported,
        Err((status, msg)) => if status == 409 && (contains_text(msg, dup_text) || contains_text(
            msg,
            "already consumed"@,
        )) {
            ImportTally::SkippedExisting
        } else {
            ImportTally::Rejected
        },
    }
}

/// Tally of a backfill.
#[derive(Clone, Debug)]
pub struct BackfillOut {
    pub peer: Option<String>,
    pub discovered: u64,
    pub imported: u64,
    pub skipped_existing: u64,
    pub rejected: u64,
    pub untrusted: u64,
    pub details: Vec<String>,
}

pub open spec fn sat_inc(x: u64) -> u64 {
    if x == u64::MAX {
        x
    } else {
        (x + 1) as u64
    }
}

fn inc(x: u64) -> (r: u64)
    ensures
        r == sat_inc(x),
{
    if x == u64::MAX {
        x
    } else {
        x + 1
    }
}

/// Detail line of a refused import.
pub open spec fn import_detail(
    msg: Seq<char>,
    fact: crate::api::CrossShardFactOut,
    tx_domain: u16,
) -> Seq<char> {
    msg + "; export_id="@ + fact.export_id@ + "; tx_domain=0x"@ + crate::text::hex2_upper(
        (tx_domain / 256) as u8,
    ) + crate::text::hex2_upper((tx_domain % 256) as u8) + "; target_hi=0x"@
        + crate::text::hex2_upper(fact.target_domain_hi) + "; to="@ + fact.to@
}

impl BackfillOut {
    /// An empty tally.
    pub fn new() -> (r: Self)
        ensures
            r.peer is None,
            r.discovered == 0,
            r.imported == 0,
            r.skipped_existing == 0,
            r.rejected == 0,
            r.untrusted == 0,
            r.details@.len() == 0,
    {
        BackfillOut {
            peer: None,
            discovered: 0,
            imported: 0,
            skipped_existing: 0,
            rejected: 0,
            untrusted: 0,
            details: Vec::new(),
        }
    }

    /// Counts a peer whose status was not trusted, with the reason.
    pub fn note_untrusted(&mut self, err: String)
        ensures
            final(self).untrusted == sat_inc(old(self).untrusted),
            final(self).details@ == old(self).details@.push(err),
            final(self).rejected == old(self).rejected,
            final(self).imported == old(self).imported,
            final(self).skipped_existing == old(self).skipped_existing,
    {
        self.untrusted = inc(self.untrusted);
        self.details.push(err);
    }

    /// Counts a refusal with a reason (a failed fact fetch or an import
    /// that could not be built).
    pub fn note_rejected(&mut self, err: String)
        ensures
            final(self).rejected == sat_inc(old(self).rejected),
            final(self).details@ == old(self).details@.push(err),
            final(self).untrusted == old(self).untrusted,
            final(self).imported == old(self).imported,
            final(self).skipped_existing == old(self).skipped_existing,
    {
        self.rejected = inc(self.rejected);
        self.details.push(err);
    }

    /// Counts an offered fact that cannot be filed here.
    pub fn note_unfileable(&mut self)
        ensures
            final(self).rejected == sat_inc(old(self).rejected),
            final(self).details@ == old(self).details@,
            final(self).untrusted == old(self).untrusted,
            final(self).imported == old(self).imported,
            final(self).skipped_existing == old(self).skipped_existing,
    {
        self.rejected = inc(self.rejected);
    }

    /// Counts the answer to one import of `fact` (sent from `tx_domain`):
    /// see [`import_tally`]; a refusal adds a detail line.
    pub fn note_import(
        &mut self,
        result: Result<(), (u16, String)>,
        dup_text: &str,
        fact: &crate::api::CrossShardFactOut,
        tx_domain: u16,
    ) -> (t: ImportTally)
        ensures
            t == import_tally(
                match result {
                    Ok(()) => Ok(()),
                    Err((s, m)) => Err((s, m@)),
                },
                dup_text@,
            ),
            final(self).imported == if t == ImportTally::Imported {
                sat_inc(old(self).imported)
            } else {
                old(self).imported
            },
            final(self).skipped_existing == if t == ImportTally::SkippedExisting {
                sat_inc(old(self).skipped_existing)
            } else {
                old(self).skipped_existing
            },
            final(self).rejected == if t == ImportTally::Rejected {
                sat_inc(old(self).rejected)
            } else {
                old(self).rejected
            },
            final(self).untrusted == old(self).untrusted,
            t != ImportTally::Rejected ==> final(self).details@ == old(self).details@,
            t == ImportTally::Rejected ==> (result matches Err((_, m)) && final(self).details@.len()
                == old(self).details@.len() + 1 && final(self).details@.drop_last() == old(
                self,
            ).details@ && final(self).details@.last()@ == import_detail(m@, *fact, tx_domain)),
    {
        proof {
            reveal_strlit("already consumed");
        }
        match result {
            Ok(()) => {
                self.imported = inc(self.imported);
                ImportTally::Imported
            },
            Err((status, msg)) => {
                if status == 409 && (str_contains(msg.as_str(), dup_text) || str_contains(
                    msg.as_str(),
                    "already consumed",
                )) {
                    self.skipped_existing = inc(self.skipped_existing);
                    ImportTally::SkippedExisting
                } else {
                    self.rejected = inc(self.rejected);
                    self.details.push(import_detail_line(msg.as_str(), fact, tx_domain));
                    ImportTally::Rejected
                }
            },
        }
    }
}

fn import_detail_line(msg: &str, fact: &crate::api::CrossShardFactOut, tx_domain: u16) -> (r: String)
    ensures
        r@ == import_detail(msg@, *fact, tx_domain),
{
    proof {
        reveal_strlit("; export_id=");
        reveal_strlit("; tx_domain=0x");
        reveal_strlit("; target_hi=0x");
        reveal_strlit("; to=");
    }
    let mut s = String::from_str(msg);
    s.append("; export_id=");
    s.append(fact.export_id.as_str());
    s.append("; tx_domain=0x");
    crate::text::push_hex2_upper(&mut s, (tx_domain / 256) as u8);
    crate::text::push_hex2_upper(&mut s, (tx_domain % 256) as u8);
    s.append("; target_hi=0x");
    crate::text::push_hex2_upper(&mut s, fact.target_domain_hi);
    s.append("; to=");
    s.append(fact.to.as_str());
    s
}

} // verus!
