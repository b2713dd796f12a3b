//! Node-level federation dictionary: the latest height seen for each shard,
//! merged from hellos, heartbeats, local status and trusted gossip relays.
//!
//! The table keeps one row per shard label. Rows expire a fixed time after
//! they were last seen; the HTTP view reports fresh and stale rows, and the
//! gossip pack relays the freshest rows within a row and byte budget.

use crate::handshake::NodeHello;
use crate::lease_backend::sat_add;
use crate::text::{hex2, push_hex2, str_eq};
use vstd::prelude::*;
use vstd::string::*;

verus! {

/// Rows stay fresh for this many seconds after they were last seen.
pub const FEDERATION_TTL_SEC: u64 = 60;

/// Freshness window in milliseconds.
pub const FED_TTL_MS: u64 = 60_000;

/// Rows per outbound gossip pack.
pub const GOSSIP_WIRE_MAX_ROWS: usize = 32;

/// Approximate byte budget of an outbound gossip pack.
pub const GOSSIP_WIRE_MAX_BYTES: usize = 4096;

/// Inbound gossip rows considered per heartbeat.
pub const GOSSIP_INBOUND_MAX_ROWS: usize = 64;

/// Longest shard label (in bytes) accepted from gossip.
pub const GOSSIP_SHARD_ID_MAX: usize = 128;

/// Longest node id (in bytes) accepted from gossip.
pub const GOSSIP_NODE_ID_MAX: usize = 256;

/// Where a federation row was learned.
#[derive(Clone, Copy, Debug, PartialEq, Eq, Structural)]
pub enum FedRowSource {
    Hello,
    Heartbeat,
    Status,
    /// Trusted relay: the row arrived inside a peer heartbeat gossip bundle.
    Gossip,
}

pub open spec fn source_label(s: FedRowSource) -> Seq<char> {
    match s {
        FedRowSource::Hello => "hello"@,
        FedRowSource::Heartbeat => "heartbeat"@,
        FedRowSource::Status => "status"@,
        FedRowSource::Gossip => "gossip"@,
    }
}

impl FedRowSource {
    /// Label used in JSON views.
    pub fn as_json(self) -> (r: &'static str)
        ensures
            r@ == source_label(self),
    {
        match self {
            FedRowSource::Hello => "hello",
            FedRowSource::Heartbeat => "heartbeat",
            FedRowSource::Status => "status",
            FedRowSource::Gossip => "gossip",
        }
    }
}

/// One shard row of the federation dictionary.
#[derive(Clone, Debug, PartialEq, Eq)]
pub struct FedShardRow {
    pub shard_id: String,
    pub latest_height: u64,
    pub last_seen_unix_ms: u64,
    pub source: FedRowSource,
    pub source_node_id: String,
}

/// Mathematical view of a [`FedShardRow`].
pub struct FedRowView {
    pub shard: Seq<char>,
    pub height: u64,
    pub seen: u64,
    pub source: FedRowSource,
    pub node: Seq<char>,
}

impl View for FedShardRow {
    type V = FedRowView;

    open spec fn view(&self) -> FedRowView {
        FedRowView {
            shard: self.shard_id@,
            height: self.latest_height,
            seen: self.last_seen_unix_ms,
            source: self.source,
            node: self.source_node_id@,
        }
    }
}

impl FedShardRow {
    /// Field-by-field copy whose view equals the original's.
    pub fn duplicate(&self) -> (r: FedShardRow)
        ensures
            r@ == self@,
    {
        FedShardRow {
            shard_id: self.shard_id.clone(),
            latest_height: self.latest_height,
            last_seen_unix_ms: self.last_seen_unix_ms,
            source: self.source,
            source_node_id: self.source_node_id.clone(),
        }
    }
}

/// A single federation row relayed inside a trusted peer heartbeat.
#[derive(Clone, Debug, PartialEq, Eq)]
pub struct FedGossipWireRow {
    pub shard_id: String,
    pub latest_height: u64,
    pub last_seen_unix_ms: u64,
    /// Original observer (merge provenance), not the relaying peer.
    pub source_node_id: String,
}

pub struct FedWireView {
    pub shard: Seq<char>,
    pub height: u64,
    pub seen: u64,
    pub node: Seq<char>,
}

impl View for FedGossipWireRow {
    type V = FedWireView;

    open spec fn view(&self) -> FedWireView {
        FedWireView {
            shard: self.shard_id@,
            height: self.latest_height,
            seen: self.last_seen_unix_ms,
            node: self.source_node_id@,
        }
    }
}

// ---------------------------------------------------------------------------
// Merge rule and freshness
// ---------------------------------------------------------------------------

/// The row kept for a shard after merging `inc` into what was there.
///
/// A higher height replaces the row; at equal height a newer sighting
/// replaces it; a lower height keeps the height but takes the newer of the
/// two sightings and the incoming provenance.
pub open spec fn merged(cur: Option<FedRowView>, inc: FedRowView) -> FedRowView {
    match cur {
        None => inc,
        Some(c) => if inc.height > c.height || (inc.height == c.height && inc.seen > c.seen) {
            inc
        } else if inc.height == c.height {
            c
        } else {
            FedRowView {
                seen: if c.seen >= inc.seen {
                    c.seen
                } else {
                    inc.seen
                },
                source: inc.source,
                node: inc.node,
                ..c
            }
        },
    }
}

/// A row is fresh until `FED_TTL_MS` after it was last seen (saturating).
pub open spec fn fresh(v: FedRowView, now_ms: u64) -> bool {
    now_ms < sat_add(v.seen, FED_TTL_MS)
}

// ---------------------------------------------------------------------------
// Lexicographic order on labels
// ---------------------------------------------------------------------------

/// Lexicographic order by code point: the order `String` sorts in (UTF-8
/// preserves code point order byte by byte).
pub open spec fn label_lt(a: Seq<char>, b: Seq<char>) -> bool
    decreases a.len(),
{
    if a.len() == 0 {
        b.len() > 0
    } else if b.len() == 0 {
        false
    } else if a[0] != b[0] {
        a[0] < b[0]
    } else {
        label_lt(a.drop_first(), b.drop_first())
    }
}

pub proof fn lemma_label_lt_irreflexive(a: Seq<char>)
    ensures
        !label_lt(a, a),
    decreases a.len(),
{
    if a.len() > 0 {
        lemma_label_lt_irreflexive(a.drop_first());
    }
}

pub proof fn lemma_label_lt_trans(a: Seq<char>, b: Seq<char>, c: Seq<char>)
    requires
        label_lt(a, b),
        label_lt(b, c),
    ensures
        label_lt(a, c),
    decreases a.len(),
{
    if a.len() > 0 && b.len() > 0 && c.len() > 0 && a[0] == b[0] && b[0] == c[0] {
        lemma_label_lt_trans(a.drop_first(), b.drop_first(), c.drop_first());
    }
}

pub proof fn lemma_label_lt_total(a: Seq<char>, b: Seq<char>)
    requires
        a != b,
    ensures
        label_lt(a, b) || label_lt(b, a),
    decreases a.len(),
{
    if a.len() > 0 && b.len() > 0 && a[0] == b[0] {
        if a.drop_first() == b.drop_first() {
            assert(a =~= seq![a[0]] + a.drop_first());
            assert(b =~= seq![b[0]] + b.drop_first());
        }
        lemma_label_lt_total(a.drop_first(), b.drop_first());
    } else if a.len() == 0 && b.len() == 0 {
        assert(a =~= b);
    } else if a.len() > 0 && b.len() > 0 {
        assert(a[0] < b[0] || b[0] < a[0]);
    }
}

proof fn lemma_label_lt_skip(a: Seq<char>, b: Seq<char>, i: int)
    requires
        0 <= i < a.len(),
        i < b.len(),
        a[i] == b[i],
    ensures
        label_lt(a.skip(i), b.skip(i)) == label_lt(a.skip(i + 1), b.skip(i + 1)),
{
    assert(a.skip(i).drop_first() =~= a.skip(i + 1));
    assert(b.skip(i).drop_first() =~= b.skip(i + 1));
}

/// `a < b` for strings.
pub fn str_lt(a: &str, b: &str) -> (r: bool)
    ensures
        r == label_lt(a@, b@),
{
    let n = a.unicode_len();
    let m = b.unicode_len();
    let mut i: usize = 0;
    assert(a@.skip(0) =~= a@);
    assert(b@.skip(0) =~= b@);
    while i < n && i < m
        invariant
            n == a@.len(),
            m == b@.len(),
            i <= n,
            i <= m,
            label_lt(a@, b@) == label_lt(a@.skip(i as int), b@.skip(i as int)),
        decreases n - i,
    {
        let ca = a.get_char(i);
        let cb = b.get_char(i);
        if ca != cb {
            return ca < cb;
        }
        proof {
            lemma_label_lt_skip(a@, b@, i as int);
        }
        i = i + 1;
    }
    i < m
}

// ---------------------------------------------------------------------------
// Rows sorted by shard label
// ---------------------------------------------------------------------------

/// Rows strictly ascending by shard label (so no label occurs twice).
pub open spec fn shards_ascending(e: Seq<FedRowView>) -> bool {
    forall|a: int, b: int|
        0 <= a < b < e.len() ==> label_lt(#[trigger] e[a].shard, #[trigger] e[b].shard)
}

pub open spec fn distinct_shards(e: Seq<FedRowView>) -> bool {
    forall|a: int, b: int|
        0 <= a < e.len() && 0 <= b < e.len() && a != b ==> (#[trigger] e[a]).shard != (
        #[trigger] e[b]).shard
}

/// The row stored for shard `k`, if any.
pub open spec fn entry_for(e: Seq<FedRowView>, k: Seq<char>) -> Option<FedRowView> {
    if exists|i: int| 0 <= i < e.len() && (#[trigger] e[i]).shard == k {
        Some(e[choose|i: int| 0 <= i < e.len() && (#[trigger] e[i]).shard == k])
    } else {
        None
    }
}

/// The dictionary a row list stands for: shard label to row.
pub open spec fn rows_map(e: Seq<FedRowView>) -> Map<Seq<char>, FedRowView> {
    Map::new(|k: Seq<char>| entry_for(e, k) is Some, |k: Seq<char>| entry_for(e, k)->0)
}

proof fn lemma_ascending_distinct(e: Seq<FedRowView>)
    requires
        shards_ascending(e),
    ensures
        distinct_shards(e),
{
    assert forall|a: int, b: int|
        0 <= a < e.len() && 0 <= b < e.len() && a != b implies (#[trigger] e[a]).shard != (
        #[trigger] e[b]).shard by {
        if a < b {
            assert(label_lt(e[a].shard, e[b].shard));
            lemma_label_lt_irreflexive(e[a].shard);
        } else {
            assert(label_lt(e[b].shard, e[a].shard));
            lemma_label_lt_irreflexive(e[b].shard);
        }
    }
}

proof fn lemma_entry_at(e: Seq<FedRowView>, i: int)
    requires
        distinct_shards(e),
        0 <= i < e.len(),
    ensures
        entry_for(e, e[i].shard) == Some(e[i]),
{
    let k = e[i].shard;
    assert(exists|j: int| 0 <= j < e.len() && (#[trigger] e[j]).shard == k);
    let c = choose|j: int| 0 <= j < e.len() && (#[trigger] e[j]).shard == k;
    assert(c == i);
}

proof fn lemma_entry_absent(e: Seq<FedRowView>, k: Seq<char>)
    requires
        forall|j: int| 0 <= j < e.len() ==> (#[trigger] e[j]).shard != k,
    ensures
        entry_for(e, k) is None,
{
}

proof fn lemma_entry_update_other(e: Seq<FedRowView>, i: int, v: FedRowView, k: Seq<char>)
    requires
        distinct_shards(e),
        0 <= i < e.len(),
        v.shard == e[i].shard,
        k != v.shard,
    ensures
        entry_for(e.update(i, v), k) == entry_for(e, k),
{
    let n = e.update(i, v);
    if exists|j: int| 0 <= j < e.len() && (#[trigger] e[j]).shard == k {
        let j = choose|j: int| 0 <= j < e.len() && (#[trigger] e[j]).shard == k;
        assert(n[j] == e[j]);
        assert(exists|j2: int| 0 <= j2 < n.len() && (#[trigger] n[j2]).shard == k);
        let c = choose|j2: int| 0 <= j2 < n.len() && (#[trigger] n[j2]).shard == k;
        assert(c != i);
        assert(n[c] == e[c]);
        assert(c == j);
    } else {
        assert forall|j: int| 0 <= j < n.len() implies (#[trigger] n[j]).shard != k by {
            if j != i {
                assert(n[j] == e[j]);
            }
        }
    }
}

proof fn lemma_entry_insert_other(e: Seq<FedRowView>, i: int, v: FedRowView, k: Seq<char>)
    requires
        distinct_shards(e),
        0 <= i <= e.len(),
        k != v.shard,
    ensures
        entry_for(e.insert(i, v), k) == entry_for(e, k),
{
    let n = e.insert(i, v);
    if exists|j: int| 0 <= j < e.len() && (#[trigger] e[j]).shard == k {
        let j = choose|j: int| 0 <= j < e.len() && (#[trigger] e[j]).shard == k;
        let jn = if j < i {
            j
        } else {
            j + 1
        };
        assert(n[jn] == e[j]);
        assert(exists|j2: int| 0 <= j2 < n.len() && (#[trigger] n[j2]).shard == k);
        let c = choose|j2: int| 0 <= j2 < n.len() && (#[trigger] n[j2]).shard == k;
        assert(c != i);
        let c0 = if c < i {
            c
        } else {
            c - 1
        };
        assert(n[c] == e[c0]);
        assert(c0 == j);
    } else {
        assert forall|j: int| 0 <= j < n.len() implies (#[trigger] n[j]).shard != k by {
            if j < i {
                assert(n[j] == e[j]);
            } else if j > i {
                assert(n[j] == e[j - 1]);
            }
        }
    }
}

proof fn lemma_entry_push_other(e: Seq<FedRowView>, v: FedRowView, k: Seq<char>)
    requires
        distinct_shards(e),
        k != v.shard,
    ensures
        entry_for(e.push(v), k) == entry_for(e, k),
{
    assert(e.push(v) =~= e.insert(e.len() as int, v));
    lemma_entry_insert_other(e, e.len() as int, v, k);
}

/// Facts that hold of every row list kept ascending by label.
proof fn lemma_rows(e: Seq<FedRowView>)
    requires
        shards_ascending(e),
    ensures
        distinct_shards(e),
        forall|i: int|
            0 <= i < e.len() ==> entry_for(e, (#[trigger] e[i]).shard) == Some(e[i]),
        forall|k: Seq<char>| #[trigger] rows_map(e).dom().contains(k) ==> rows_map(e)[k].shard == k,
{
    lemma_ascending_distinct(e);
    assert forall|i: int| 0 <= i < e.len() implies entry_for(e, (#[trigger] e[i]).shard) == Some(
        e[i],
    ) by {
        lemma_entry_at(e, i);
    }
}

proof fn lemma_dom_is_keys(e: Seq<FedRowView>)
    ensures
        rows_map(e).dom() == e.map_values(|v: FedRowView| v.shard).to_set(),
{
    let keys = e.map_values(|v: FedRowView| v.shard);
    assert forall|k: Seq<char>| rows_map(e).dom().contains(k) <==> keys.to_set().contains(k) by {
        if rows_map(e).dom().contains(k) {
            let i = choose|i: int| 0 <= i < e.len() && (#[trigger] e[i]).shard == k;
            assert(keys[i] == k);
        }
        if keys.to_set().contains(k) {
            assert(keys.contains(k));
            let i = choose|i: int| 0 <= i < keys.len() && keys[i] == k;
            assert(e[i].shard == k);
        }
    }
    assert(rows_map(e).dom() =~= keys.to_set());
}

proof fn lemma_dom_len(e: Seq<FedRowView>)
    requires
        distinct_shards(e),
    ensures
        rows_map(e).dom().finite(),
        rows_map(e).dom().len() == e.len(),
{
    let keys = e.map_values(|v: FedRowView| v.shard);
    lemma_dom_is_keys(e);
    assert forall|a: int, b: int| 0 <= a < keys.len() && 0 <= b < keys.len() && a != b implies keys[a] != keys[b] by {
        assert(e[a].shard != e[b].shard);
    }
    assert(keys.no_duplicates());
    keys.unique_seq_to_set();
    keys.lemma_cardinality_of_set();
}

/// The dictionary of a table always has finitely many shards.
pub proof fn lemma_view_finite(t: &FederationTable)
    ensures
        t@.dom().finite(),
{
    let e = t.entries();
    lemma_dom_is_keys(e);
    e.map_values(|v: FedRowView| v.shard).lemma_cardinality_of_set();
}

// ---------------------------------------------------------------------------
// The table
// ---------------------------------------------------------------------------

/// Federation dictionary: one row per shard label, kept sorted by label.
#[derive(Debug, Default)]
pub struct FederationTable {
    rows: Vec<FedShardRow>,
}

pub open spec fn rows_view(v: Seq<FedShardRow>) -> Seq<FedRowView> {
    v.map_values(|r: FedShardRow| r@)
}

impl View for FederationTable {
    type V = Map<Seq<char>, FedRowView>;

    open spec fn view(&self) -> Map<Seq<char>, FedRowView> {
        rows_map(self.entries())
    }
}

impl FederationTable {
    #[verifier::type_invariant]
    closed spec fn wf(self) -> bool {
        shards_ascending(rows_view(self.rows@))
    }

    /// The rows in ascending shard-label order.
    pub closed spec fn entries(&self) -> Seq<FedRowView> {
        rows_view(self.rows@)
    }

    /// An empty dictionary.
    pub fn new() -> (r: Self)
        ensures
            r@ == Map::<Seq<char>, FedRowView>::empty(),
            r.entries().len() == 0,
    {
        let r = FederationTable { rows: Vec::new() };
        assert(rows_view(r.rows@) =~= Seq::<FedRowView>::empty());
        assert(r@ =~= Map::<Seq<char>, FedRowView>::empty());
        r
    }

    /// Number of rows.
    pub fn len(&self) -> (r: usize)
        ensures
            r == self.entries().len(),
            r == self@.dom().len(),
    {
        proof {
            use_type_invariant(self);
            lemma_ascending_distinct(self.entries());
            lemma_dom_len(self.entries());
        }
        self.rows.len()
    }

    /// True when no row is stored.
    pub fn is_empty(&self) -> (r: bool)
        ensures
            r == (self.entries().len() == 0),
            r == (self@ == Map::<Seq<char>, FedRowView>::empty()),
    {
        proof {
            use_type_invariant(self);
            let e = self.entries();
            if e.len() > 0 {
                lemma_ascending_distinct(e);
                lemma_entry_at(e, 0);
                assert(self@.dom().contains(e[0].shard));
            } else {
                assert(self@ =~= Map::<Seq<char>, FedRowView>::empty());
            }
        }
        self.rows.len() == 0
    }

    /// Position of the first row whose label is not below `key`.
    fn lower_bound(&self, key: &str) -> (r: usize)
        ensures
            r <= self.entries().len(),
            forall|j: int| 0 <= j < r ==> label_lt((#[trigger] self.entries()[j]).shard, key@),
            r < self.entries().len() ==> !label_lt(self.entries()[r as int].shard, key@),
    {
        let ghost e = self.entries();
        let mut i: usize = 0;
        while i < self.rows.len() && str_lt(self.rows[i].shard_id.as_str(), key)
            invariant
                e == rows_view(self.rows@),
                i <= e.len(),
                forall|j: int| 0 <= j < i ==> label_lt((#[trigger] e[j]).shard, key@),
            decreases e.len() - i,
        {
            i = i + 1;
        }
        i
    }

    /// The row stored for `shard`, if any.
    pub fn get(&self, shard: &str) -> (r: Option<&FedShardRow>)
        ensures
            match r {
                Some(row) => self@.dom().contains(shard@) && row@ == self@[shard@],
                None => !self@.dom().contains(shard@),
            },
    {
        proof {
            use_type_invariant(&*self);
            lemma_rows(self.entries());
        }
        let ghost e = self.entries();
        let i = self.lower_bound(shard);
        if i < self.rows.len() && str_eq(self.rows[i].shard_id.as_str(), shard) {
            proof {
                lemma_entry_at(e, i as int);
            }
            Some(&self.rows[i])
        } else {
            proof {
                assert forall|j: int| 0 <= j < e.len() implies (#[trigger] e[j]).shard
                    != shard@ by {
                    if j < i {
                        lemma_label_lt_irreflexive(shard@);
                    } else if j > i {
                        assert(label_lt(e[i as int].shard, e[j].shard));
                        if e[j].shard == shard@ {
                            lemma_label_lt_total(e[i as int].shard, shard@);
                        }
                    }
                }
            }
            None
        }
    }

    /// Merges one row: a higher height replaces the row, an equal height
    /// with a newer sighting replaces it, and a lower height keeps the
    /// height while taking the newer sighting and the incoming provenance.
    pub fn merge_row(&mut self, incoming: FedShardRow)
        ensures
            final(self)@ == old(self)@.insert(
                incoming@.shard,
                merged(old(self)@.get(incoming@.shard), incoming@),
            ),
    {
        proof {
            use_type_invariant(&*self);
            lemma_rows(self.entries());
        }
        let ghost e = self.entries();
        let ghost k = incoming@.shard;
        let ghost inc = incoming@;
        let i = self.lower_bound(incoming.shard_id.as_str());
        let mut rows = Vec::new();
        std::mem::swap(&mut rows, &mut self.rows);
        assert(rows_view(rows@) == e);
        if i < rows.len() && str_eq(rows[i].shard_id.as_str(), incoming.shard_id.as_str()) {
            proof {
                lemma_entry_at(e, i as int);
            }
            let ghost c = e[i as int];
            assert(old(self)@.get(k) == Some(c));
            let cur_h = rows[i].latest_height;
            let cur_seen = rows[i].last_seen_unix_ms;
            let nv = if incoming.latest_height > cur_h || (incoming.latest_height == cur_h
                && incoming.last_seen_unix_ms > cur_seen) {
                incoming
            } else if incoming.latest_height == cur_h {
                rows[i].duplicate()
            } else {
                FedShardRow {
                    shard_id: rows[i].shard_id.clone(),
                    latest_height: cur_h,
                    last_seen_unix_ms: if cur_seen >= incoming.last_seen_unix_ms {
                        cur_seen
                    } else {
                        incoming.last_seen_unix_ms
                    },
                    source: incoming.source,
                    source_node_id: incoming.source_node_id,
                }
            };
            assert(nv@ == merged(Some(c), inc));
            rows.set(i, nv);
            let ghost n = rows_view(rows@);
            assert(n =~= e.update(i as int, merged(Some(c), inc)));
            assert(shards_ascending(n)) by {
                assert forall|a: int, b: int| 0 <= a < b < n.len() implies label_lt(
                    #[trigger] n[a].shard,
                    #[trigger] n[b].shard,
                ) by {
                    assert(n[a].shard == e[a].shard);
                    assert(n[b].shard == e[b].shard);
                }
            }
            proof {
                lemma_ascending_distinct(n);
                assert forall|q: Seq<char>| #[trigger] entry_for(n, q) == if q == k {
                    Some(merged(Some(c), inc))
                } else {
                    entry_for(e, q)
                } by {
                    if q == k {
                        lemma_entry_at(n, i as int);
                    } else {
                        lemma_entry_update_other(e, i as int, merged(Some(c), inc), q);
                    }
                }
            }
            self.rows = rows;
            assert(self@ =~= old(self)@.insert(k, merged(old(self)@.get(k), inc)));
        } else {
            proof {
                assert forall|j: int| 0 <= j < e.len() implies (#[trigger] e[j]).shard != k by {
                    if j < i {
                        lemma_label_lt_irreflexive(k);
                    } else if j > i {
                        assert(label_lt(e[i as int].shard, e[j].shard));
                        if e[j].shard == k {
                            lemma_label_lt_total(e[i as int].shard, k);
                        }
                    }
                }
                lemma_entry_absent(e, k);
                if i < e.len() {
                    lemma_label_lt_total(e[i as int].shard, k);
                }
            }
            assert(old(self)@.get(k) is None);
            rows.insert(i, incoming);
            let ghost n = rows_view(rows@);
            assert(n =~= e.insert(i as int, inc));
            assert(shards_ascending(n)) by {
                assert forall|a: int, b: int| 0 <= a < b < n.len() implies label_lt(
                    #[trigger] n[a].shard,
                    #[trigger] n[b].shard,
                ) by {
                    if b < i {
                        assert(n[a] == e[a] && n[b] == e[b]);
                    } else if b == i {
                        assert(n[a] == e[a]);
                    } else if a == i {
                        assert(n[b] == e[b - 1]);
                        if b - 1 > i {
                            assert(label_lt(e[i as int].shard, e[b - 1].shard));
                            lemma_label_lt_trans(k, e[i as int].shard, e[b - 1].shard);
                        }
                    } else if a < i {
                        assert(n[a] == e[a] && n[b] == e[b - 1]);
                        if b - 1 >= i {
                            assert(label_lt(e[a].shard, k));
                            assert(label_lt(k, e[i as int].shard));
                            if b - 1 > i {
                                assert(label_lt(e[i as int].shard, e[b - 1].shard));
                                lemma_label_lt_trans(k, e[i as int].shard, e[b - 1].shard);
                            }
                            lemma_label_lt_trans(e[a].shard, k, e[b - 1].shard);
                        }
                    } else {
                        assert(n[a] == e[a - 1] && n[b] == e[b - 1]);
                    }
                }
            }
            proof {
                lemma_ascending_distinct(n);
                assert forall|q: Seq<char>| #[trigger] entry_for(n, q) == if q == k {
                    Some(inc)
                } else {
                    entry_for(e, q)
                } by {
                    if q == k {
                        lemma_entry_at(n, i as int);
                    } else {
                        lemma_entry_insert_other(e, i as int, inc, q);
                    }
                }
            }
            self.rows = rows;
            assert(self@ =~= old(self)@.insert(k, merged(old(self)@.get(k), inc)));
        }
    }
}

/// The dictionary with its expired rows dropped.
pub open spec fn fresh_only(m: Map<Seq<char>, FedRowView>, now_ms: u64) -> Map<
    Seq<char>,
    FedRowView,
> {
    Map::new(|k: Seq<char>| m.dom().contains(k) && fresh(m[k], now_ms), |k: Seq<char>| m[k])
}

/// Rows whose freshness window has not passed.
pub open spec fn fresh_count(e: Seq<FedRowView>, now_ms: u64) -> nat
    decreases e.len(),
{
    if e.len() == 0 {
        0
    } else {
        fresh_count(e.drop_last(), now_ms) + if fresh(e.last(), now_ms) {
            1nat
        } else {
            0nat
        }
    }
}

proof fn lemma_fresh_count_le(e: Seq<FedRowView>, now_ms: u64)
    ensures
        fresh_count(e, now_ms) <= e.len(),
    decreases e.len(),
{
    if e.len() > 0 {
        lemma_fresh_count_le(e.drop_last(), now_ms);
    }
}

/// Health of the federation view: any stale row makes it stale; otherwise
/// it is complete when the expected number of shards (or, with no
/// expectation, at least one shard) is active.
pub open spec fn view_health(expected: Option<u32>, active: u32, stale: u32) -> Seq<char> {
    if stale > 0 {
        "stale"@
    } else {
        match expected {
            Some(exp) => if active == exp {
                "complete"@
            } else {
                "partial"@
            },
            None => if active == 0 {
                "partial"@
            } else {
                "complete"@
            },
        }
    }
}

pub fn view_health_label(expected: Option<u32>, active: u32, stale: u32) -> (r: &'static str)
    ensures
        r@ == view_health(expected, active, stale),
{
    if stale > 0 {
        return "stale";
    }
    match expected {
        Some(exp) => {
            if active == exp {
                "complete"
            } else {
                "partial"
            }
        },
        None => {
            if active == 0 {
                "partial"
            } else {
                "complete"
            }
        },
    }
}

/// The federation dictionary as served over HTTP.
#[derive(Debug)]
pub struct FederationShardsOut {
    pub generated_at_unix_ms: u64,
    pub ttl_sec: u64,
    pub view_health: &'static str,
    pub expected_shard_count: Option<u32>,
    pub active_shard_count: u32,
    pub stale_shard_count: u32,
    pub rows: Vec<FederationShardRowOut>,
}

/// One row of the HTTP view.
#[derive(Debug)]
pub struct FederationShardRowOut {
    pub shard_id: String,
    pub latest_height: u64,
    pub last_seen_unix_ms: u64,
    pub ttl_sec: u64,
    pub expires_at_unix_ms: u64,
    pub source: &'static str,
    pub source_node_id: String,
    pub fresh: bool,
}

/// What the HTTP view shows for a stored row at `now_ms`.
pub open spec fn row_out_matches(o: FederationShardRowOut, v: FedRowView, now_ms: u64) -> bool {
    &&& o.shard_id@ == v.shard
    &&& o.latest_height == v.height
    &&& o.last_seen_unix_ms == v.seen
    &&& o.ttl_sec == FEDERATION_TTL_SEC
    &&& o.expires_at_unix_ms == sat_add(v.seen, FED_TTL_MS)
    &&& o.source@ == source_label(v.source)
    &&& o.source_node_id@ == v.node
    &&& o.fresh == fresh(v, now_ms)
}

// ---------------------------------------------------------------------------
// Gossip packs
// ---------------------------------------------------------------------------

/// Byte length of a string (what `str::len` reports).
pub open spec fn byte_len(s: Seq<char>) -> usize {
    vstd::utf8::encode_utf8(s).len() as usize
}

/// Approximate wire size of one relayed row.
pub open spec fn wire_cost(v: FedRowView) -> nat {
    (byte_len(v.shard) + byte_len(v.node) + 48) as nat
}

/// Approximate wire size of the first `j` rows of `s`.
pub open spec fn wire_bytes(s: Seq<FedRowView>, j: int) -> nat
    decreases j,
{
    if j <= 0 || j > s.len() {
        0
    } else {
        wire_bytes(s, j - 1) + wire_cost(s[j - 1])
    }
}

/// `k` rows of `s` go out: at most `GOSSIP_WIRE_MAX_ROWS`, the first always
/// when there is one, any further row only while the running size stays
/// within `GOSSIP_WIRE_MAX_BYTES`, and no more could have been taken.
pub open spec fn gossip_count_ok(s: Seq<FedRowView>, k: int) -> bool {
    &&& 0 <= k <= s.len()
    &&& k <= GOSSIP_WIRE_MAX_ROWS
    &&& s.len() > 0 ==> k >= 1
    &&& k >= 2 ==> wire_bytes(s, k) <= GOSSIP_WIRE_MAX_BYTES
    &&& (k < s.len() && k < GOSSIP_WIRE_MAX_ROWS) ==> wire_bytes(s, k + 1) > GOSSIP_WIRE_MAX_BYTES
}

/// `s` lists every fresh row of the dictionary once, freshest first.
pub open spec fn gossip_order(m: Map<Seq<char>, FedRowView>, now_ms: u64, s: Seq<FedRowView>) -> bool {
    &&& s.no_duplicates()
    &&& forall|v: FedRowView|
        #[trigger] s.contains(v) <==> (m.dom().contains(v.shard) && m[v.shard] == v && fresh(
            v,
            now_ms,
        ))
    &&& forall|a: int, b: int| 0 <= a < b < s.len() ==> (#[trigger] s[b]).seen <= (#[trigger] s[a]).seen
}

/// The relayed form of a stored row.
pub open spec fn wire_of(v: FedRowView) -> FedWireView {
    FedWireView { shard: v.shard, height: v.height, seen: v.seen, node: v.node }
}

pub open spec fn wire_views(v: Seq<FedGossipWireRow>) -> Seq<FedWireView> {
    v.map_values(|w: FedGossipWireRow| w@)
}

proof fn lemma_wire_bytes_step(s: Seq<FedRowView>, j: int)
    requires
        0 <= j < s.len(),
    ensures
        wire_bytes(s, j + 1) == wire_bytes(s, j) + wire_cost(s[j]),
        wire_bytes(s, j) <= wire_bytes(s, j + 1),
{
}

proof fn lemma_wire_bytes_mono(s: Seq<FedRowView>, a: int, b: int)
    requires
        0 <= a <= b <= s.len(),
    ensures
        wire_bytes(s, a) <= wire_bytes(s, b),
    decreases b - a,
{
    if a < b {
        lemma_wire_bytes_mono(s, a, b - 1);
    }
}

/// For a fixed order, only one row count meets the budget rule.
pub proof fn lemma_gossip_count_unique(s: Seq<FedRowView>, k1: int, k2: int)
    requires
        gossip_count_ok(s, k1),
        gossip_count_ok(s, k2),
    ensures
        k1 == k2,
{
    if k1 < k2 {
        lemma_wire_bytes_mono(s, k1 + 1, k2);
    } else if k2 < k1 {
        lemma_wire_bytes_mono(s, k2 + 1, k1);
    }
}

impl FederationTable {
    /// Drops every row whose freshness window has passed.
    pub fn sweep_expired(&mut self, now_ms: u64)
        ensures
            final(self)@ == fresh_only(old(self)@, now_ms),
    {
        proof {
            use_type_invariant(&*self);
            lemma_rows(self.entries());
        }
        let ghost e = self.entries();
        let mut out: Vec<FedShardRow> = Vec::new();
        let mut i: usize = 0;
        assert(e.take(0) =~= Seq::<FedRowView>::empty());
        while i < self.rows.len()
            invariant
                e == rows_view(self.rows@),
                shards_ascending(e),
                distinct_shards(e),
                i <= e.len(),
                shards_ascending(rows_view(out@)),
                forall|j: int, t: int|
                    0 <= j < out@.len() && i <= t < e.len() ==> label_lt(
                        (#[trigger] rows_view(out@)[j]).shard,
                        (#[trigger] e[t]).shard,
                    ),
                forall|q: Seq<char>| #[trigger]
                    entry_for(rows_view(out@), q) == match entry_for(e.take(i as int), q) {
                        Some(v) => if fresh(v, now_ms) {
                            Some(v)
                        } else {
                            None
                        },
                        None => None,
                    },
            decreases e.len() - i,
        {
            let ghost o = rows_view(out@);
            let ghost x = e[i as int];
            assert(e.take(i + 1) =~= e.take(i as int).push(x));
            assert(distinct_shards(e.take(i as int))) by {
                assert forall|a: int, b: int|
                    0 <= a < e.take(i as int).len() && 0 <= b < e.take(i as int).len() && a
                        != b implies (#[trigger] e.take(i as int)[a]).shard != (
                    #[trigger] e.take(i as int)[b]).shard by {
                    assert(e.take(i as int)[a] == e[a]);
                    assert(e.take(i as int)[b] == e[b]);
                }
            }
            assert(distinct_shards(e.take(i + 1))) by {
                assert forall|a: int, b: int|
                    0 <= a < e.take(i + 1).len() && 0 <= b < e.take(i + 1).len() && a
                        != b implies (#[trigger] e.take(i + 1)[a]).shard != (
                    #[trigger] e.take(i + 1)[b]).shard by {
                    assert(e.take(i + 1)[a] == e[a]);
                    assert(e.take(i + 1)[b] == e[b]);
                }
            }
            proof {
                lemma_ascending_distinct(o);
                assert forall|q: Seq<char>| #[trigger] entry_for(e.take(i + 1), q) == if q
                    == x.shard {
                    Some(x)
                } else {
                    entry_for(e.take(i as int), q)
                } by {
                    if q == x.shard {
                        lemma_entry_at(e.take(i + 1), i as int);
                    } else {
                        lemma_entry_push_other(e.take(i as int), x, q);
                    }
                }
            }
            if now_ms < self.rows[i].last_seen_unix_ms.saturating_add(FED_TTL_MS) {
                let row = self.rows[i].duplicate();
                out.push(row);
                let ghost n = rows_view(out@);
                assert(n =~= o.push(x));
                proof {
                    assert forall|j: int| 0 <= j < o.len() implies (#[trigger] o[j]).shard
                        != x.shard by {
                        assert(label_lt(o[j].shard, e[i as int].shard));
                        lemma_label_lt_irreflexive(x.shard);
                    }
                    lemma_entry_absent(o, x.shard);
                    assert forall|q: Seq<char>| #[trigger] entry_for(n, q) == if q == x.shard {
                        Some(x)
                    } else {
                        entry_for(o, q)
                    } by {
                        if q == x.shard {
                            assert(distinct_shards(n)) by {
                                assert forall|a: int, b: int|
                                    0 <= a < n.len() && 0 <= b < n.len() && a != b implies (
                                    #[trigger] n[a]).shard != (#[trigger] n[b]).shard by {
                                    if a < o.len() {
                                        assert(n[a] == o[a]);
                                    }
                                    if b < o.len() {
                                        assert(n[b] == o[b]);
                                    }
                                }
                            }
                            lemma_entry_at(n, o.len() as int);
                        } else {
                            lemma_entry_push_other(o, x, q);
                        }
                    }
                    assert forall|a: int, b: int| 0 <= a < b < n.len() implies label_lt(
                        #[trigger] n[a].shard,
                        #[trigger] n[b].shard,
                    ) by {
                        assert(n[a] == o[a]);
                        if b < o.len() {
                            assert(n[b] == o[b]);
                        } else {
                            assert(label_lt(o[a].shard, e[i as int].shard));
                        }
                    }
                    assert forall|j: int, t: int|
                        0 <= j < n.len() && i + 1 <= t < e.len() implies label_lt(
                        (#[trigger] n[j]).shard,
                        (#[trigger] e[t]).shard,
                    ) by {
                        if j < o.len() {
                            assert(n[j] == o[j]);
                        } else {
                            assert(label_lt(e[i as int].shard, e[t].shard));
                        }
                    }
                }
            }
            i = i + 1;
        }
        assert(e.take(e.len() as int) =~= e);
        self.rows = out;
        assert(self@ =~= fresh_only(old(self)@, now_ms));
    }

    /// The dictionary as served over HTTP: every row in ascending label
    /// order with its expiry and freshness, the fresh and stale counts and
    /// the view health.
    pub fn build_http_view(&self, now_ms: u64, expected: Option<u32>) -> (r: FederationShardsOut)
        requires
            self@.dom().len() <= u32::MAX,
        ensures
            self@.dom().len() == self.entries().len(),
            shards_ascending(self.entries()),
            rows_map(self.entries()) == self@,
            r.generated_at_unix_ms == now_ms,
            r.ttl_sec == FEDERATION_TTL_SEC,
            r.expected_shard_count == expected,
            r.active_shard_count == fresh_count(self.entries(), now_ms),
            r.active_shard_count + r.stale_shard_count == self.entries().len(),
            r.view_health@ == view_health(expected, r.active_shard_count, r.stale_shard_count),
            r.rows@.len() == self.entries().len(),
            forall|i: int|
                0 <= i < r.rows@.len() ==> row_out_matches(
                    #[trigger] r.rows@[i],
                    self.entries()[i],
                    now_ms,
                ),
    {
        proof {
            use_type_invariant(self);
            lemma_ascending_distinct(self.entries());
            lemma_dom_len(self.entries());
        }
        let ghost e = self.entries();
        let mut rows_out: Vec<FederationShardRowOut> = Vec::new();
        let mut active: u32 = 0;
        let mut stale: u32 = 0;
        let mut i: usize = 0;
        assert(e.take(0) =~= Seq::<FedRowView>::empty());
        while i < self.rows.len()
            invariant
                e == rows_view(self.rows@),
                e.len() <= u32::MAX,
                i <= e.len(),
                rows_out@.len() == i,
                active == fresh_count(e.take(i as int), now_ms),
                active + stale == i,
                forall|j: int|
                    0 <= j < i ==> row_out_matches(#[trigger] rows_out@[j], e[j], now_ms),
            decreases e.len() - i,
        {
            assert(e.take(i + 1).drop_last() =~= e.take(i as int));
            let row = &self.rows[i];
            let expires_at_unix_ms = row.last_seen_unix_ms.saturating_add(FED_TTL_MS);
            let is_fresh = now_ms < expires_at_unix_ms;
            if is_fresh {
                active = active + 1;
            } else {
                stale = stale + 1;
            }
            rows_out.push(
                FederationShardRowOut {
                    shard_id: row.shard_id.clone(),
                    latest_height: row.latest_height,
                    last_seen_unix_ms: row.last_seen_unix_ms,
                    ttl_sec: FEDERATION_TTL_SEC,
                    expires_at_unix_ms,
                    source: row.source.as_json(),
                    source_node_id: row.source_node_id.clone(),
                    fresh: is_fresh,
                },
            );
            i = i + 1;
        }
        assert(e.take(e.len() as int) =~= e);
        let view_health = view_health_label(expected, active, stale);
        FederationShardsOut {
            generated_at_unix_ms: now_ms,
            ttl_sec: FEDERATION_TTL_SEC,
            view_health,
            expected_shard_count: expected,
            active_shard_count: active,
            stale_shard_count: stale,
            rows: rows_out,
        }
    }
}

/// `idx` lists, without repetition and newest sighting first, exactly the
/// fresh rows among the first `i` rows of `e`.
spec fn idx_ok(idx: Seq<usize>, e: Seq<FedRowView>, i: int, now_ms: u64) -> bool {
    &&& forall|j: int|
        0 <= j < idx.len() ==> #[trigger] idx[j] < i && fresh(e[idx[j] as int], now_ms)
    &&& forall|a: int, b: int| 0 <= a < b < idx.len() ==> #[trigger] idx[a] != #[trigger] idx[b]
    &&& forall|t: int| 0 <= t < i && fresh(#[trigger] e[t], now_ms) ==> idx.contains(t as usize)
    &&& forall|a: int, b: int|
        0 <= a < b < idx.len() ==> e[#[trigger] idx[b] as int].seen <= e[#[trigger] idx[a] as int].seen
}

proof fn lemma_idx_skip(idx: Seq<usize>, e: Seq<FedRowView>, i: int, now_ms: u64)
    requires
        idx_ok(idx, e, i, now_ms),
        0 <= i < e.len(),
        !fresh(e[i], now_ms),
    ensures
        idx_ok(idx, e, i + 1, now_ms),
{
}

proof fn lemma_idx_insert(idx: Seq<usize>, e: Seq<FedRowView>, i: int, now_ms: u64, p: int)
    requires
        idx_ok(idx, e, i, now_ms),
        0 <= i < e.len(),
        i < usize::MAX,
        fresh(e[i], now_ms),
        0 <= p <= idx.len(),
        forall|q: int| 0 <= q < p ==> e[#[trigger] idx[q] as int].seen >= e[i].seen,
        p < idx.len() ==> e[idx[p] as int].seen < e[i].seen,
    ensures
        idx_ok(idx.insert(p, i as usize), e, i + 1, now_ms),
{
    let n = idx.insert(p, i as usize);
    assert forall|j: int| 0 <= j < n.len() implies #[trigger] n[j] < i + 1 && fresh(
        e[n[j] as int],
        now_ms,
    ) by {
        if j < p {
            assert(n[j] == idx[j]);
        } else if j > p {
            assert(n[j] == idx[j - 1]);
        }
    }
    assert forall|a: int, b: int| 0 <= a < b < n.len() implies #[trigger] n[a] != #[trigger] n[b] by {
        if b < p {
            assert(n[a] == idx[a] && n[b] == idx[b]);
        } else if b == p {
            assert(n[a] == idx[a]);
        } else if a == p {
            assert(n[b] == idx[b - 1]);
        } else if a < p {
            assert(n[a] == idx[a] && n[b] == idx[b - 1]);
        } else {
            assert(n[a] == idx[a - 1] && n[b] == idx[b - 1]);
        }
    }
    assert forall|a: int, b: int| 0 <= a < b < n.len() implies e[#[trigger] n[b] as int].seen
        <= e[#[trigger] n[a] as int].seen by {
        if b < p {
            assert(n[a] == idx[a] && n[b] == idx[b]);
        } else if b == p {
            assert(n[a] == idx[a]);
        } else if a == p {
            assert(n[b] == idx[b - 1]);
            if b - 1 > p {
                assert(e[idx[b - 1] as int].seen <= e[idx[p] as int].seen);
            }
        } else if a < p {
            assert(n[a] == idx[a] && n[b] == idx[b - 1]);
            if a < p {
                assert(e[idx[a] as int].seen >= e[i].seen);
            }
        } else {
            assert(n[a] == idx[a - 1] && n[b] == idx[b - 1]);
        }
    }
    assert forall|t: int| 0 <= t < i + 1 && fresh(#[trigger] e[t], now_ms) implies n.contains(
        t as usize,
    ) by {
        if t == i {
            assert(n[p] == i as usize);
        } else {
            assert(idx.contains(t as usize));
            let w = choose|w: int| 0 <= w < idx.len() && idx[w] == t as usize;
            if w < p {
                assert(n[w] == idx[w]);
            } else {
                assert(n[w + 1] == idx[w]);
            }
        }
    }
}

impl FederationTable {
    /// Rows for trusted heartbeat gossip: the fresh rows, freshest first,
    /// cut to the row and byte budget.
    pub fn gossip_wire_rows(&self, now_ms: u64) -> (r: Vec<FedGossipWireRow>)
        ensures
            exists|s: Seq<FedRowView>, k: int|
                #![trigger gossip_order(self@, now_ms, s), gossip_count_ok(s, k)]
                gossip_order(self@, now_ms, s) && gossip_count_ok(s, k) && wire_views(r@)
                    == s.take(k).map_values(|v: FedRowView| wire_of(v)),
    {
        proof {
            use_type_invariant(self);
            lemma_rows(self.entries());
        }
        let ghost e = self.entries();
        // Indices of the fresh rows, ordered by last sighting, newest first.
        let mut idx: Vec<usize> = Vec::new();
        let mut i: usize = 0;
        while i < self.rows.len()
            invariant
                e == rows_view(self.rows@),
                i <= e.len(),
                idx_ok(idx@, e, i as int, now_ms),
            decreases e.len() - i,
        {
            if now_ms < self.rows[i].last_seen_unix_ms.saturating_add(FED_TTL_MS) {
                let seen = self.rows[i].last_seen_unix_ms;
                let mut p: usize = 0;
                while p < idx.len() && self.rows[idx[p]].last_seen_unix_ms >= seen
                    invariant
                        e == rows_view(self.rows@),
                        seen == e[i as int].seen,
                        i < e.len(),
                        p <= idx@.len(),
                        idx_ok(idx@, e, i as int, now_ms),
                        forall|q: int| 0 <= q < p ==> e[#[trigger] idx@[q] as int].seen >= seen,
                    decreases idx@.len() - p,
                {
                    p = p + 1;
                }
                proof {
                    lemma_idx_insert(idx@, e, i as int, now_ms, p as int);
                }
                idx.insert(p, i);
            } else {
                proof {
                    lemma_idx_skip(idx@, e, i as int, now_ms);
                }
            }
            i = i + 1;
        }
        let ghost s = idx@.map_values(|t: usize| e[t as int]);
        proof {
            let m = self@;
            assert(m == rows_map(e));
            assert(forall|q: int| 0 <= q < idx@.len() ==> #[trigger] idx@[q] < e.len());
            assert forall|a: int, b: int| 0 <= a < s.len() && 0 <= b < s.len() && a != b implies s[a] != s[b] by {
                if a < b {
                    assert(idx@[a] != idx@[b]);
                } else {
                    assert(idx@[b] != idx@[a]);
                }
                if s[a] == s[b] {
                    assert(e[idx@[a] as int].shard == e[idx@[b] as int].shard);
                }
            }
            assert forall|v: FedRowView| #[trigger] s.contains(v) <==> (m.dom().contains(v.shard) && m[v.shard] == v && fresh(v, now_ms)) by {
                if s.contains(v) {
                    let j = choose|j: int| 0 <= j < s.len() && s[j] == v;
                    let t = idx@[j] as int;
                    assert(e[t] == v);
                    assert(entry_for(e, e[t].shard) == Some(e[t]));
                }
                if m.dom().contains(v.shard) && m[v.shard] == v && fresh(v, now_ms) {
                    assert(entry_for(e, v.shard) == Some(v));
                    let t = choose|t: int| 0 <= t < e.len() && (#[trigger] e[t]).shard == v.shard;
                    assert(e[t] == v);
                    assert(idx@.contains(t as usize));
                    let j = choose|j: int| 0 <= j < idx@.len() && idx@[j] == t as usize;
                    assert(s[j] == v);
                }
            }
            assert forall|a: int, b: int| 0 <= a < b < s.len() implies (#[trigger] s[b]).seen <= (#[trigger] s[a]).seen by {
                assert(e[idx@[b] as int].seen <= e[idx@[a] as int].seen);
            }
            assert(gossip_order(m, now_ms, s));
        }
        let lim: usize = if idx.len() < GOSSIP_WIRE_MAX_ROWS {
            idx.len()
        } else {
            GOSSIP_WIRE_MAX_ROWS
        };
        let mut out: Vec<FedGossipWireRow> = Vec::new();
        let mut approx: usize = 0;
        let mut j: usize = 0;
        let mut stop = false;
        assert(s.take(0).map_values(|v: FedRowView| wire_of(v)) =~= wire_views(out@));
        while j < lim && !stop
            invariant
                e == rows_view(self.rows@),
                s == idx@.map_values(|t: usize| e[t as int]),
                forall|q: int| 0 <= q < idx@.len() ==> #[trigger] idx@[q] < e.len(),
                lim <= idx@.len(),
                lim <= GOSSIP_WIRE_MAX_ROWS,
                lim == idx@.len() || lim == GOSSIP_WIRE_MAX_ROWS,
                j <= lim,
                out@.len() == j,
                wire_views(out@) == s.take(j as int).map_values(|v: FedRowView| wire_of(v)),
                approx as nat == if wire_bytes(s, j as int) <= usize::MAX {
                    wire_bytes(s, j as int)
                } else {
                    usize::MAX as nat
                },
                j >= 2 ==> wire_bytes(s, j as int) <= GOSSIP_WIRE_MAX_BYTES,
                stop ==> j >= 1 && j < lim && wire_bytes(s, j + 1) > GOSSIP_WIRE_MAX_BYTES,
            decreases lim - j + if stop { 0int } else { 1int },
        {
            let r = &self.rows[idx[j]];
            let ghost v = s[j as int];
            assert(v == e[idx@[j as int] as int]);
            assert(r@ == v);
            let cost = r.shard_id.as_str().len().saturating_add(r.source_node_id.as_str().len()).saturating_add(48);
            proof {
                lemma_wire_bytes_step(s, j as int);
            }
            let next = approx.saturating_add(cost);
            if next > GOSSIP_WIRE_MAX_BYTES && out.len() > 0 {
                stop = true;
            } else {
                approx = next;
                let ghost old_out = out@;
                let w = FedGossipWireRow {
                    shard_id: r.shard_id.clone(),
                    latest_height: r.latest_height,
                    last_seen_unix_ms: r.last_seen_unix_ms,
                    source_node_id: r.source_node_id.clone(),
                };
                assert(w@ == wire_of(v));
                out.push(w);
                assert(wire_views(out@) =~= wire_views(old_out).push(wire_of(v)));
                assert(s.take(j + 1) =~= s.take(j as int).push(v));
                assert(s.take(j + 1).map_values(|v: FedRowView| wire_of(v)) =~= s.take(
                    j as int,
                ).map_values(|v: FedRowView| wire_of(v)).push(wire_of(v)));
                j = j + 1;
            }
        }
        proof {
            assert(gossip_count_ok(s, j as int));
        }
        out
    }
}

/// Whether an inbound gossip row is accepted: a non-empty shard label and
/// labels within the byte limits.
pub open spec fn gossip_row_ok(w: FedWireView) -> bool {
    &&& w.shard.len() > 0
    &&& byte_len(w.shard) <= GOSSIP_SHARD_ID_MAX
    &&& byte_len(w.node) <= GOSSIP_NODE_ID_MAX
}

/// The stored row an accepted gossip row becomes.
pub open spec fn gossip_row(w: FedWireView) -> FedRowView {
    FedRowView {
        shard: w.shard,
        height: w.height,
        seen: w.seen,
        source: FedRowSource::Gossip,
        node: w.node,
    }
}

/// The dictionary after merging accepted rows of `rows`, in order.
pub open spec fn gossip_fold(m: Map<Seq<char>, FedRowView>, rows: Seq<FedWireView>) -> Map<
    Seq<char>,
    FedRowView,
>
    decreases rows.len(),
{
    if rows.len() == 0 {
        m
    } else {
        let prev = gossip_fold(m, rows.drop_last());
        let w = rows.last();
        if gossip_row_ok(w) {
            prev.insert(w.shard, merged(prev.get(w.shard), gossip_row(w)))
        } else {
            prev
        }
    }
}

/// Merges the rows of a trusted gossip bundle: at most
/// `GOSSIP_INBOUND_MAX_ROWS` are considered; rows with an empty or
/// over-long label are skipped; the rest merge as gossip rows, keeping the
/// original observer as provenance.
pub fn merge_gossip_rows(table: &mut FederationTable, rows: Vec<FedGossipWireRow>)
    ensures
        final(table)@ == gossip_fold(
            old(table)@,
            wire_views(rows@).take(
                if rows@.len() < GOSSIP_INBOUND_MAX_ROWS {
                    rows@.len() as int
                } else {
                    GOSSIP_INBOUND_MAX_ROWS as int
                },
            ),
        ),
{
    let ghost ws = wire_views(rows@);
    let n: usize = if rows.len() < GOSSIP_INBOUND_MAX_ROWS {
        rows.len()
    } else {
        GOSSIP_INBOUND_MAX_ROWS
    };
    let mut i: usize = 0;
    assert(ws.take(0) =~= Seq::<FedWireView>::empty());
    while i < n
        invariant
            ws == wire_views(rows@),
            n <= rows@.len(),
            i <= n,
            table@ == gossip_fold(old(table)@, ws.take(i as int)),
        decreases n - i,
    {
        let r = &rows[i];
        let ghost w = ws[i as int];
        assert(ws.take(i + 1).drop_last() =~= ws.take(i as int));
        assert(ws.take(i + 1).last() == w);
        if r.shard_id.as_str().is_empty() || r.shard_id.as_str().len() > GOSSIP_SHARD_ID_MAX
            || r.source_node_id.as_str().len() > GOSSIP_NODE_ID_MAX {
        } else {
            table.merge_row(
                FedShardRow {
                    shard_id: r.shard_id.clone(),
                    latest_height: r.latest_height,
                    last_seen_unix_ms: r.last_seen_unix_ms,
                    source: FedRowSource::Gossip,
                    source_node_id: r.source_node_id.clone(),
                },
            );
        }
        i = i + 1;
    }
}

/// Shard key used for a peer that announced no federation shard:
/// `{cluster_id}:0x{domain_hi:02x}`.
pub open spec fn fallback_key(hello: NodeHello) -> Seq<char> {
    hello.cluster.cluster_id@ + ":0x"@ + hex2(hello.cluster.domain_hi)
}

pub fn fallback_shard_key(hello: &NodeHello) -> (r: String)
    ensures
        r@ == fallback_key(*hello),
{
    let mut out = hello.cluster.cluster_id.clone();
    out.append(":0x");
    push_hex2(&mut out, hello.cluster.domain_hi);
    out
}

/// Shard a hello's row is filed under: its announced shard, else the fallback key.
pub open spec fn hello_shard(hello: NodeHello) -> Seq<char> {
    match hello.federation_shard_id {
        Some(s) => s@,
        None => fallback_key(hello),
    }
}

fn hello_shard_key(hello: &NodeHello) -> (r: String)
    ensures
        r@ == hello_shard(*hello),
{
    match &hello.federation_shard_id {
        Some(s) => s.clone(),
        None => fallback_shard_key(hello),
    }
}

/// Shard a heartbeat's row is filed under: the heartbeat's shard, else the
/// peer hello's, else the fallback key.
pub open spec fn heartbeat_shard(hb_shard: Option<Seq<char>>, hello: NodeHello) -> Seq<char> {
    match hb_shard {
        Some(s) => s,
        None => hello_shard(hello),
    }
}

pub open spec fn opt_view(o: Option<String>) -> Option<Seq<char>> {
    match o {
        Some(s) => Some(s@),
        None => None,
    }
}

pub open spec fn opt_wire_views(o: Option<Vec<FedGossipWireRow>>) -> Option<Seq<FedWireView>> {
    match o {
        Some(v) => Some(wire_views(v@)),
        None => None,
    }
}

/// Inbound gossip rows actually considered (the first `GOSSIP_INBOUND_MAX_ROWS`).
pub open spec fn inbound_window(ws: Seq<FedWireView>) -> Seq<FedWireView> {
    ws.take(
        if ws.len() < GOSSIP_INBOUND_MAX_ROWS {
            ws.len() as int
        } else {
            GOSSIP_INBOUND_MAX_ROWS as int
        },
    )
}

/// Merges `row` into `m` (the dictionary-level effect of `merge_row`).
pub open spec fn merge_into(m: Map<Seq<char>, FedRowView>, row: FedRowView) -> Map<
    Seq<char>,
    FedRowView,
> {
    m.insert(row.shard, merged(m.get(row.shard), row))
}

impl FederationTable {
    /// Records the chain tip a peer announced in its hello (nothing when it
    /// announced none).
    pub fn merge_remote_hello(&mut self, hello: &NodeHello, now_ms: u64)
        ensures
            final(self)@ == match hello.chain_tip_height {
                None => old(self)@,
                Some(h) => merge_into(
                    old(self)@,
                    FedRowView {
                        shard: hello_shard(*hello),
                        height: h,
                        seen: now_ms,
                        source: FedRowSource::Hello,
                        node: hello.node.node_id@,
                    },
                ),
            },
    {
        let height = match hello.chain_tip_height {
            None => {
                return ;
            },
            Some(h) => h,
        };
        let row = FedShardRow {
            shard_id: hello_shard_key(hello),
            latest_height: height,
            last_seen_unix_ms: now_ms,
            source: FedRowSource::Hello,
            source_node_id: hello.node.node_id.clone(),
        };
        self.merge_row(row);
    }

    /// Applies a peer heartbeat: only a trusted peer's heartbeat changes the
    /// dictionary; its gossip bundle merges first, then its own tip (when it
    /// reported one).
    pub fn merge_remote_hb(
        &mut self,
        trusted: bool,
        remote_hello: &NodeHello,
        remote_node_id: &str,
        observed_ms: u64,
        chain_tip_height: Option<u64>,
        federation_shard_id: Option<String>,
        federation_gossip: Option<Vec<FedGossipWireRow>>,
    )
        ensures
            !trusted ==> final(self)@ == old(self)@,
            trusted ==> {
                let g = match opt_wire_views(federation_gossip) {
                    Some(ws) => gossip_fold(old(self)@, inbound_window(ws)),
                    None => old(self)@,
                };
                final(self)@ == match chain_tip_height {
                    None => g,
                    Some(h) => merge_into(
                        g,
                        FedRowView {
                            shard: heartbeat_shard(opt_view(federation_shard_id), *remote_hello),
                            height: h,
                            seen: observed_ms,
                            source: FedRowSource::Heartbeat,
                            node: remote_node_id@,
                        },
                    ),
                }
            },
    {
        if !trusted {
            return ;
        }
        if let Some(rows) = federation_gossip {
            merge_gossip_rows(self, rows);
        }
        let height = match chain_tip_height {
            None => {
                return ;
            },
            Some(h) => h,
        };
        let shard = match federation_shard_id {
            Some(s) => s,
            None => hello_shard_key(remote_hello),
        };
        let row = FedShardRow {
            shard_id: shard,
            latest_height: height,
            last_seen_unix_ms: observed_ms,
            source: FedRowSource::Heartbeat,
            source_node_id: remote_node_id.to_string(),
        };
        self.merge_row(row);
    }

    /// Serves the HTTP view: merges the local status row, builds the view
    /// at `now_ms`, then drops expired rows.
    pub fn http_snapshot(&mut self, local: FedShardRow, now_ms: u64) -> (r: FederationShardsOut)
        requires
            old(self)@.dom().len() < u32::MAX,
        ensures
            final(self)@ == fresh_only(merge_into(old(self)@, local@), now_ms),
            r.generated_at_unix_ms == now_ms,
            r.expected_shard_count is None,
            r.active_shard_count + r.stale_shard_count == merge_into(old(self)@, local@).dom().len(),
            r.view_health@ == view_health(None, r.active_shard_count, r.stale_shard_count),
    {
        proof {
            lemma_view_finite(self);
        }
        self.merge_row(local);
        let out = self.build_http_view(now_ms, None);
        self.sweep_expired(now_ms);
        out
    }
}

/// Merging never lowers a shard's height: the kept height is the larger of
/// the stored and the incoming one; when the incoming height is not higher,
/// the kept sighting is the later of the two.
pub proof fn lemma_merge_keeps_max_height(cur: Option<FedRowView>, inc: FedRowView)
    ensures
        merged(cur, inc).height == match cur {
            Some(c) => if c.height >= inc.height {
                c.height
            } else {
                inc.height
            },
            None => inc.height,
        },
        cur matches Some(c) ==> (inc.height <= c.height ==> merged(cur, inc).seen == if c.seen
            >= inc.seen {
            c.seen
        } else {
            inc.seen
        }),
{
}

/// Delivering the same row twice (a relay repeating itself) has the effect
/// of delivering it once.
pub proof fn lemma_merge_idempotent(m: Map<Seq<char>, FedRowView>, row: FedRowView)
    ensures
        merge_into(merge_into(m, row), row) == merge_into(m, row),
{
    let once = merge_into(m, row);
    assert(once.get(row.shard) == Some(merged(m.get(row.shard), row)));
    assert(merge_into(once, row) =~= once);
}

} // verus!
