//! Cross-shard facts ledger backing exports, imports, handoffs and the API
//! summaries.
//!
//! One fact per export id, kept in export-id order. A fact's lifecycle only
//! moves forward (exported, registered, imported); an update never lowers
//! it, never raises the first height seen, and never turns a locally
//! observed fact into a peer observation. The ledger holds at most
//! `FACT_CAP` facts: beyond that the oldest (lowest last height, then
//! lowest export id) is dropped.

use crate::text::{dec, hex2_upper, push_dec, push_dec128, push_hex2_upper};
use vstd::prelude::*;
use vstd::string::*;

verus! {

/// Heights between two periodic summary log lines.
pub const SUMMARY_BLOCK_INTERVAL: u64 = 500;

/// Most facts the ledger keeps.
pub const FACT_CAP: usize = 4096;

/// A 32-byte account id.
pub type AccountId = [u8; 32];

/// Lifecycle of an export, in the order it moves through.
#[derive(Clone, Copy, Debug, PartialEq, Eq, Structural)]
pub enum CrossShardStatus {
    Exported,
    Registered,
    Imported,
}

pub open spec fn status_rank(s: CrossShardStatus) -> u8 {
    match s {
        CrossShardStatus::Exported => 1,
        CrossShardStatus::Registered => 2,
        CrossShardStatus::Imported => 3,
    }
}

impl CrossShardStatus {
    /// Position in the lifecycle.
    pub fn rank(self) -> (r: u8)
        ensures
            r == status_rank(self),
    {
        match self {
            CrossShardStatus::Exported => 1,
            CrossShardStatus::Registered => 2,
            CrossShardStatus::Imported => 3,
        }
    }
}

/// Who observed a fact.
#[derive(Clone, Copy, Debug, PartialEq, Eq, Structural)]
pub enum CrossShardOrigin {
    Local,
    TrustedPeer,
}

impl Default for CrossShardOrigin {
    fn default() -> (r: Self)
        ensures
            r == CrossShardOrigin::Local,
    {
        CrossShardOrigin::Local
    }
}

/// One cross-shard transfer as this node knows it.
#[derive(Clone, Copy, Debug, PartialEq, Eq)]
pub struct CrossShardFact {
    pub export_id: [u8; 32],
    pub source_domain_hi: u8,
    pub target_domain_hi: u8,
    pub amount: u128,
    pub status: CrossShardStatus,
    pub first_height: u64,
    pub last_height: u64,
    pub source: Option<AccountId>,
    pub to: AccountId,
    pub intent_id: Option<[u8; 32]>,
    pub origin: CrossShardOrigin,
}

// ---------------------------------------------------------------------------
// Byte order on export ids
// ---------------------------------------------------------------------------

/// Lexicographic order on byte strings (the order of `[u8; 32]` keys).
pub open spec fn bytes_lt(a: Seq<u8>, b: Seq<u8>) -> bool
    decreases a.len(),
{
    if a.len() == 0 {
        b.len() > 0
    } else if b.len() == 0 {
        false
    } else if a[0] != b[0] {
        a[0] < b[0]
    } else {
        bytes_lt(a.drop_first(), b.drop_first())
    }
}

pub proof fn lemma_bytes_lt_irreflexive(a: Seq<u8>)
    ensures
        !bytes_lt(a, a),
    decreases a.len(),
{
    if a.len() > 0 {
        lemma_bytes_lt_irreflexive(a.drop_first());
    }
}

pub proof fn lemma_bytes_lt_trans(a: Seq<u8>, b: Seq<u8>, c: Seq<u8>)
    requires
        bytes_lt(a, b),
        bytes_lt(b, c),
    ensures
        bytes_lt(a, c),
    decreases a.len(),
{
    if a.len() > 0 && b.len() > 0 && c.len() > 0 && a[0] == b[0] && b[0] == c[0] {
        lemma_bytes_lt_trans(a.drop_first(), b.drop_first(), c.drop_first());
    }
}

pub proof fn lemma_bytes_lt_total(a: Seq<u8>, b: Seq<u8>)
    requires
        a != b,
    ensures
        bytes_lt(a, b) || bytes_lt(b, a),
    decreases a.len(),
{
    if a.len() > 0 && b.len() > 0 && a[0] == b[0] {
        if a.drop_first() == b.drop_first() {
            assert(a =~= seq![a[0]] + a.drop_first());
            assert(b =~= seq![b[0]] + b.drop_first());
        }
        lemma_bytes_lt_total(a.drop_first(), b.drop_first());
    } else if a.len() == 0 && b.len() == 0 {
        assert(a =~= b);
    }
}

proof fn lemma_bytes_lt_skip(a: Seq<u8>, b: Seq<u8>, i: int)
    requires
        0 <= i < a.len(),
        i < b.len(),
        a[i] == b[i],
    ensures
        bytes_lt(a.skip(i), b.skip(i)) == bytes_lt(a.skip(i + 1), b.skip(i + 1)),
{
    assert(a.skip(i).drop_first() =~= a.skip(i + 1));
    assert(b.skip(i).drop_first() =~= b.skip(i + 1));
}

/// `a < b` for export ids.
pub fn id_lt(a: &[u8; 32], b: &[u8; 32]) -> (r: bool)
    ensures
        r == bytes_lt(a@, b@),
{
    let mut i: usize = 0;
    assert(a@.skip(0) =~= a@);
    assert(b@.skip(0) =~= b@);
    while i < 32
        invariant
            a@.len() == 32,
            b@.len() == 32,
            i <= 32,
            bytes_lt(a@, b@) == bytes_lt(a@.skip(i as int), b@.skip(i as int)),
        decreases 32 - i,
    {
        if a[i] != b[i] {
            return a[i] < b[i];
        }
        proof {
            lemma_bytes_lt_skip(a@, b@, i as int);
        }
        i = i + 1;
    }
    assert(a@.skip(32) =~= Seq::<u8>::empty());
    assert(b@.skip(32) =~= Seq::<u8>::empty());
    false
}

proof fn lemma_id_eq(a: [u8; 32], b: [u8; 32])
    ensures
        (a == b) <==> (a@ == b@),
{
    if a@ == b@ {
        assert(a =~= b);
    }
}

/// `a == b` for export ids.
pub fn id_eq(a: &[u8; 32], b: &[u8; 32]) -> (r: bool)
    ensures
        r == (*a == *b),
{
    let mut i: usize = 0;
    while i < 32
        invariant
            a@.len() == 32,
            b@.len() == 32,
            i <= 32,
            forall|k: int| 0 <= k < i ==> a@[k] == b@[k],
        decreases 32 - i,
    {
        if a[i] != b[i] {
            proof {
                lemma_id_eq(*a, *b);
            }
            return false;
        }
        i = i + 1;
    }
    assert(a@ =~= b@);
    proof {
        lemma_id_eq(*a, *b);
    }
    true
}

fn opt_id_eq(a: &Option<[u8; 32]>, b: &Option<[u8; 32]>) -> (r: bool)
    ensures
        r == (*a == *b),
{
    match (a, b) {
        (Some(x), Some(y)) => id_eq(x, y),
        (None, None) => true,
        _ => false,
    }
}

/// Field-by-field equality of two facts.
pub fn fact_eq(a: &CrossShardFact, b: &CrossShardFact) -> (r: bool)
    ensures
        r == (*a == *b),
{
    id_eq(&a.export_id, &b.export_id) && a.source_domain_hi == b.source_domain_hi
        && a.target_domain_hi == b.target_domain_hi && a.amount == b.amount && a.status
        == b.status && a.first_height == b.first_height && a.last_height == b.last_height
        && opt_id_eq(&a.source, &b.source) && id_eq(&a.to, &b.to) && opt_id_eq(
        &a.intent_id,
        &b.intent_id,
    ) && a.origin == b.origin
}

// ---------------------------------------------------------------------------
// Facts in export-id order
// ---------------------------------------------------------------------------

/// Facts strictly ascending by export id (so no id occurs twice).
pub open spec fn ids_ascending(e: Seq<CrossShardFact>) -> bool {
    forall|a: int, b: int|
        0 <= a < b < e.len() ==> bytes_lt(
            (#[trigger] e[a]).export_id@,
            (#[trigger] e[b]).export_id@,
        )
}

pub open spec fn distinct_ids(e: Seq<CrossShardFact>) -> bool {
    forall|a: int, b: int|
        0 <= a < e.len() && 0 <= b < e.len() && a != b ==> (#[trigger] e[a]).export_id != (
        #[trigger] e[b]).export_id
}

/// The fact stored for `id`, if any.
pub open spec fn fact_for(e: Seq<CrossShardFact>, id: [u8; 32]) -> Option<CrossShardFact> {
    if exists|i: int| 0 <= i < e.len() && (#[trigger] e[i]).export_id == id {
        Some(e[choose|i: int| 0 <= i < e.len() && (#[trigger] e[i]).export_id == id])
    } else {
        None
    }
}

/// The ledger a fact list stands for: export id to fact.
pub open spec fn facts_map(e: Seq<CrossShardFact>) -> Map<[u8; 32], CrossShardFact> {
    Map::new(|k: [u8; 32]| fact_for(e, k) is Some, |k: [u8; 32]| fact_for(e, k)->0)
}

proof fn lemma_ascending_distinct(e: Seq<CrossShardFact>)
    requires
        ids_ascending(e),
    ensures
        distinct_ids(e),
{
    assert forall|a: int, b: int|
        0 <= a < e.len() && 0 <= b < e.len() && a != b implies (#[trigger] e[a]).export_id != (
        #[trigger] e[b]).export_id by {
        if a < b {
            assert(bytes_lt(e[a].export_id@, e[b].export_id@));
            lemma_bytes_lt_irreflexive(e[a].export_id@);
        } else {
            assert(bytes_lt(e[b].export_id@, e[a].export_id@));
            lemma_bytes_lt_irreflexive(e[b].export_id@);
        }
    }
}

proof fn lemma_fact_at(e: Seq<CrossShardFact>, i: int)
    requires
        distinct_ids(e),
        0 <= i < e.len(),
    ensures
        fact_for(e, e[i].export_id) == Some(e[i]),
{
    let k = e[i].export_id;
    assert(exists|j: int| 0 <= j < e.len() && (#[trigger] e[j]).export_id == k);
    let c = choose|j: int| 0 <= j < e.len() && (#[trigger] e[j]).export_id == k;
    assert(c == i);
}

proof fn lemma_facts(e: Seq<CrossShardFact>)
    requires
        ids_ascending(e),
    ensures
        distinct_ids(e),
        forall|i: int|
            0 <= i < e.len() ==> fact_for(e, (#[trigger] e[i]).export_id) == Some(e[i]),
{
    lemma_ascending_distinct(e);
    assert forall|i: int| 0 <= i < e.len() implies fact_for(e, (#[trigger] e[i]).export_id)
        == Some(e[i]) by {
        lemma_fact_at(e, i);
    }
}

proof fn lemma_fact_update_other(
    e: Seq<CrossShardFact>,
    i: int,
    v: CrossShardFact,
    k: [u8; 32],
)
    requires
        distinct_ids(e),
        0 <= i < e.len(),
        v.export_id == e[i].export_id,
        k != v.export_id,
    ensures
        fact_for(e.update(i, v), k) == fact_for(e, k),
{
    let n = e.update(i, v);
    if exists|j: int| 0 <= j < e.len() && (#[trigger] e[j]).export_id == k {
        let j = choose|j: int| 0 <= j < e.len() && (#[trigger] e[j]).export_id == k;
        assert(n[j] == e[j]);
        assert(exists|j2: int| 0 <= j2 < n.len() && (#[trigger] n[j2]).export_id == k);
        let c = choose|j2: int| 0 <= j2 < n.len() && (#[trigger] n[j2]).export_id == k;
        assert(c != i);
        assert(n[c] == e[c]);
        assert(c == j);
    } else {
        assert forall|j: int| 0 <= j < n.len() implies (#[trigger] n[j]).export_id != k by {
            if j != i {
                assert(n[j] == e[j]);
            }
        }
    }
}

proof fn lemma_fact_insert_other(
    e: Seq<CrossShardFact>,
    i: int,
    v: CrossShardFact,
    k: [u8; 32],
)
    requires
        distinct_ids(e),
        0 <= i <= e.len(),
        k != v.export_id,
    ensures
        fact_for(e.insert(i, v), k) == fact_for(e, k),
{
    let n = e.insert(i, v);
    if exists|j: int| 0 <= j < e.len() && (#[trigger] e[j]).export_id == k {
        let j = choose|j: int| 0 <= j < e.len() && (#[trigger] e[j]).export_id == k;
        let jn = if j < i {
            j
        } else {
            j + 1
        };
        assert(n[jn] == e[j]);
        assert(exists|j2: int| 0 <= j2 < n.len() && (#[trigger] n[j2]).export_id == k);
        let c = choose|j2: int| 0 <= j2 < n.len() && (#[trigger] n[j2]).export_id == k;
        assert(c != i);
        let c0 = if c < i {
            c
        } else {
            c - 1
        };
        assert(n[c] == e[c0]);
        assert(c0 == j);
    } else {
        assert forall|j: int| 0 <= j < n.len() implies (#[trigger] n[j]).export_id != k by {
            if j < i {
                assert(n[j] == e[j]);
            } else if j > i {
                assert(n[j] == e[j - 1]);
            }
        }
    }
}

proof fn lemma_fact_remove(e: Seq<CrossShardFact>, i: int, k: [u8; 32])
    requires
        distinct_ids(e),
        0 <= i < e.len(),
    ensures
        fact_for(e.remove(i), k) == if k == e[i].export_id {
            None
        } else {
            fact_for(e, k)
        },
{
    let n = e.remove(i);
    if k == e[i].export_id {
        assert forall|j: int| 0 <= j < n.len() implies (#[trigger] n[j]).export_id != k by {
            let j0 = if j < i {
                j
            } else {
                j + 1
            };
            assert(n[j] == e[j0]);
        }
    } else {
        if exists|j: int| 0 <= j < e.len() && (#[trigger] e[j]).export_id == k {
            let j = choose|j: int| 0 <= j < e.len() && (#[trigger] e[j]).export_id == k;
            assert(j != i);
            let jn = if j < i {
                j
            } else {
                j - 1
            };
            assert(n[jn] == e[j]);
            assert(exists|j2: int| 0 <= j2 < n.len() && (#[trigger] n[j2]).export_id == k);
            let c = choose|j2: int| 0 <= j2 < n.len() && (#[trigger] n[j2]).export_id == k;
            let c0 = if c < i {
                c
            } else {
                c + 1
            };
            assert(n[c] == e[c0]);
            assert(c0 == j);
        } else {
            assert forall|j: int| 0 <= j < n.len() implies (#[trigger] n[j]).export_id != k by {
                let j0 = if j < i {
                    j
                } else {
                    j + 1
                };
                assert(n[j] == e[j0]);
            }
        }
    }
}

proof fn lemma_dom_len(e: Seq<CrossShardFact>)
    requires
        distinct_ids(e),
    ensures
        facts_map(e).dom().finite(),
        facts_map(e).dom().len() == e.len(),
{
    let keys = e.map_values(|f: CrossShardFact| f.export_id);
    assert forall|k: [u8; 32]| facts_map(e).dom().contains(k) <==> keys.to_set().contains(k) by {
        if facts_map(e).dom().contains(k) {
            let i = choose|i: int| 0 <= i < e.len() && (#[trigger] e[i]).export_id == k;
            assert(keys[i] == k);
        }
        if keys.to_set().contains(k) {
            assert(keys.contains(k));
            let i = choose|i: int| 0 <= i < keys.len() && keys[i] == k;
            assert(e[i].export_id == k);
        }
    }
    assert(facts_map(e).dom() =~= keys.to_set());
    assert forall|a: int, b: int| 0 <= a < keys.len() && 0 <= b < keys.len() && a != b implies keys[a]
        != keys[b] by {
        assert(e[a].export_id != e[b].export_id);
    }
    keys.unique_seq_to_set();
    keys.lemma_cardinality_of_set();
}

// ---------------------------------------------------------------------------
// Upsert rule and eviction order
// ---------------------------------------------------------------------------

/// What an update of `existing` with `fact` stores, or `None` when the
/// update would move the lifecycle backwards and is refused. An accepted
/// update keeps the earlier first height, keeps a local origin local, and
/// keeps known source and intent ids when the update lacks them.
pub open spec fn upsert_merge(existing: CrossShardFact, fact: CrossShardFact) -> Option<
    CrossShardFact,
> {
    if status_rank(fact.status) < status_rank(existing.status) {
        None
    } else {
        Some(
            CrossShardFact {
                origin: if existing.origin == CrossShardOrigin::Local && fact.origin
                    == CrossShardOrigin::TrustedPeer {
                    CrossShardOrigin::Local
                } else {
                    fact.origin
                },
                first_height: if existing.first_height <= fact.first_height {
                    existing.first_height
                } else {
                    fact.first_height
                },
                source: if fact.source is None {
                    existing.source
                } else {
                    fact.source
                },
                intent_id: if fact.intent_id is None {
                    existing.intent_id
                } else {
                    fact.intent_id
                },
                ..fact
            },
        )
    }
}

/// `a` is not younger than `b`: ordered by last height, then export id.
pub open spec fn older_or_same(a: CrossShardFact, b: CrossShardFact) -> bool {
    a.last_height < b.last_height || (a.last_height == b.last_height && !bytes_lt(
        b.export_id@,
        a.export_id@,
    ))
}

/// `k` names the oldest fact of `m`.
pub open spec fn is_oldest(m: Map<[u8; 32], CrossShardFact>, k: [u8; 32]) -> bool {
    &&& m.dom().contains(k)
    &&& forall|k2: [u8; 32]| #[trigger] m.dom().contains(k2) ==> older_or_same(m[k], m[k2])
}

/// `m` cut back to `FACT_CAP` facts by dropping its oldest fact.
pub open spec fn evict_over_cap(m: Map<[u8; 32], CrossShardFact>) -> Map<[u8; 32], CrossShardFact> {
    if m.dom().len() > FACT_CAP {
        m.remove(choose|k: [u8; 32]| is_oldest(m, k))
    } else {
        m
    }
}

/// The ledger after an upsert of `fact` into `m`, and whether it changed.
pub open spec fn upsert_result(m: Map<[u8; 32], CrossShardFact>, fact: CrossShardFact) -> (
    Map<[u8; 32], CrossShardFact>,
    bool,
) {
    if m.dom().contains(fact.export_id) {
        match upsert_merge(m[fact.export_id], fact) {
            None => (m, false),
            Some(v) => (evict_over_cap(m.insert(fact.export_id, v)), m[fact.export_id] != v),
        }
    } else {
        (evict_over_cap(m.insert(fact.export_id, fact)), true)
    }
}

proof fn lemma_oldest_unique(m: Map<[u8; 32], CrossShardFact>, k1: [u8; 32], k2: [u8; 32])
    requires
        forall|k: [u8; 32]| #[trigger] m.dom().contains(k) ==> m[k].export_id == k,
        is_oldest(m, k1),
        is_oldest(m, k2),
    ensures
        k1 == k2,
{
    let a = m[k1];
    let b = m[k2];
    assert(older_or_same(a, b));
    assert(older_or_same(b, a));
    if a.export_id@ != b.export_id@ {
        lemma_bytes_lt_total(a.export_id@, b.export_id@);
    }
    lemma_id_eq(a.export_id, b.export_id);
}

/// Cross-shard facts, one per export id, at most `FACT_CAP` of them.
#[derive(Debug, Default)]
pub struct CrossShardLedger {
    facts: Vec<CrossShardFact>,
}

impl View for CrossShardLedger {
    type V = Map<[u8; 32], CrossShardFact>;

    open spec fn view(&self) -> Map<[u8; 32], CrossShardFact> {
        facts_map(self.entries())
    }
}

/// Every fact of `m` is filed under its own export id.
pub open spec fn keyed_by_id(m: Map<[u8; 32], CrossShardFact>) -> bool {
    forall|k: [u8; 32]| #[trigger] m.dom().contains(k) ==> m[k].export_id == k
}

impl CrossShardLedger {
    #[verifier::type_invariant]
    closed spec fn wf(self) -> bool {
        &&& ids_ascending(self.facts@)
        &&& self.facts@.len() <= FACT_CAP
    }

    /// The facts in export-id order.
    pub closed spec fn entries(&self) -> Seq<CrossShardFact> {
        self.facts@
    }

    /// An empty ledger.
    pub fn new() -> (r: Self)
        ensures
            r@ == Map::<[u8; 32], CrossShardFact>::empty(),
    {
        let r = CrossShardLedger { facts: Vec::new() };
        assert(r@ =~= Map::<[u8; 32], CrossShardFact>::empty());
        r
    }

    /// Number of facts (never more than `FACT_CAP`).
    pub fn len(&self) -> (r: usize)
        ensures
            r == self@.dom().len(),
            r <= FACT_CAP,
            self@.dom().finite(),
            keyed_by_id(self@),
    {
        proof {
            use_type_invariant(self);
            lemma_facts(self.entries());
            lemma_dom_len(self.entries());
        }
        self.facts.len()
    }

    /// Position of the first fact whose id is not below `id`.
    fn lower_bound(&self, id: &[u8; 32]) -> (r: usize)
        ensures
            r <= self.entries().len(),
            forall|j: int|
                0 <= j < r ==> bytes_lt((#[trigger] self.entries()[j]).export_id@, id@),
            r < self.entries().len() ==> !bytes_lt(self.entries()[r as int].export_id@, id@),
    {
        let mut i: usize = 0;
        while i < self.facts.len() && id_lt(&self.facts[i].export_id, id)
            invariant
                i <= self.facts@.len(),
                forall|j: int| 0 <= j < i ==> bytes_lt((#[trigger] self.facts@[j]).export_id@, id@),
            decreases self.facts@.len() - i,
        {
            i = i + 1;
        }
        i
    }

    /// Where `id` is (`Ok`) or would go (`Err`).
    fn locate(&self, id: &[u8; 32]) -> (r: Result<usize, usize>)
        ensures
            match r {
                Ok(i) => i < self.entries().len() && self.entries()[i as int].export_id == *id,
                Err(i) => {
                    &&& i <= self.entries().len()
                    &&& forall|j: int|
                        0 <= j < self.entries().len() ==> (#[trigger] self.entries()[j]).export_id
                            != *id
                    &&& forall|j: int|
                        0 <= j < i ==> bytes_lt((#[trigger] self.entries()[j]).export_id@, id@)
                    &&& i < self.entries().len() ==> bytes_lt(id@, self.entries()[i as int].export_id@)
                },
            },
    {
        proof {
            use_type_invariant(self);
        }
        let ghost e = self.entries();
        let i = self.lower_bound(id);
        if i < self.facts.len() && id_eq(&self.facts[i].export_id, id) {
            Ok(i)
        } else {
            proof {
                assert forall|j: int| 0 <= j < e.len() implies (#[trigger] e[j]).export_id != *id by {
                    if j < i {
                        lemma_bytes_lt_irreflexive(id@);
                    } else if j > i {
                        assert(bytes_lt(e[i as int].export_id@, e[j].export_id@));
                        if e[j].export_id == *id {
                            if e[i as int].export_id@ != id@ {
                                lemma_bytes_lt_total(e[i as int].export_id@, id@);
                            } else {
                                lemma_id_eq(e[i as int].export_id, *id);
                            }
                        }
                    }
                }
                if i < e.len() {
                    lemma_id_eq(e[i as int].export_id, *id);
                    lemma_bytes_lt_total(e[i as int].export_id@, id@);
                }
            }
            Err(i)
        }
    }

    /// The fact recorded for `export_id`, if any.
    pub fn fact(&self, export_id: &[u8; 32]) -> (r: Option<&CrossShardFact>)
        ensures
            match r {
                Some(f) => self@.dom().contains(*export_id) && *f == self@[*export_id],
                None => !self@.dom().contains(*export_id),
            },
    {
        proof {
            use_type_invariant(self);
            lemma_facts(self.entries());
        }
        match self.locate(export_id) {
            Ok(i) => Some(&self.facts[i]),
            Err(_) => None,
        }
    }

    /// Every fact, in export-id order.
    pub fn facts(&self) -> (r: Vec<CrossShardFact>)
        ensures
            r@ == self.entries(),
            ids_ascending(r@),
            facts_map(r@) == self@,
    {
        proof {
            use_type_invariant(self);
        }
        self.facts.clone()
    }
}

/// Index of the oldest fact (lowest last height, then lowest export id).
fn oldest_index(e: &Vec<CrossShardFact>) -> (r: usize)
    requires
        e@.len() > 0,
    ensures
        r < e@.len(),
        forall|j: int| 0 <= j < e@.len() ==> older_or_same(e@[r as int], #[trigger] e@[j]),
{
    let mut best: usize = 0;
    let mut i: usize = 1;
    proof {
        lemma_bytes_lt_irreflexive(e@[0].export_id@);
    }
    while i < e.len()
        invariant
            1 <= i <= e@.len(),
            best < i,
            forall|j: int| 0 <= j < i ==> older_or_same(e@[best as int], #[trigger] e@[j]),
        decreases e@.len() - i,
    {
        let c = &e[i];
        let b = &e[best];
        if c.last_height < b.last_height || (c.last_height == b.last_height && id_lt(
            &c.export_id,
            &b.export_id,
        )) {
            proof {
                let cv = e@[i as int];
                let bv = e@[best as int];
                lemma_bytes_lt_irreflexive(cv.export_id@);
                assert forall|j: int| 0 <= j < i + 1 implies older_or_same(cv, #[trigger] e@[j]) by {
                    if j < i {
                        let x = e@[j];
                        assert(older_or_same(bv, x));
                        if cv.last_height == bv.last_height && bv.last_height == x.last_height {
                            if bytes_lt(x.export_id@, cv.export_id@) {
                                lemma_bytes_lt_trans(x.export_id@, cv.export_id@, bv.export_id@);
                            }
                        }
                    }
                }
            }
            best = i;
        }
        i = i + 1;
    }
    best
}

/// High byte of a domain code (the domain's `hi` byte).
pub open spec fn domain_hi_of(code: u16) -> u8 {
    (code / 256) as u8
}

fn domain_hi(code: u16) -> (r: u8)
    ensures
        r == domain_hi_of(code),
{
    (code / 256) as u8
}

/// What an export's source chain records about it (from its provenance
/// record): the source domain byte, the amount and the recipient.
#[derive(Clone, Copy, Debug, PartialEq, Eq)]
pub struct ImportProvenance {
    pub source_domain_hi: u8,
    pub amount: u128,
    pub to: AccountId,
}

/// Fact recorded for a local export.
pub open spec fn export_fact(
    export_id: [u8; 32],
    domain_code: u16,
    source: AccountId,
    to: AccountId,
    target_domain: u16,
    amount: u128,
    height: u64,
    intent_id: Option<[u8; 32]>,
) -> CrossShardFact {
    CrossShardFact {
        export_id,
        source_domain_hi: domain_hi_of(domain_code),
        target_domain_hi: domain_hi_of(target_domain),
        amount,
        status: CrossShardStatus::Exported,
        first_height: height,
        last_height: height,
        source: Some(source),
        to,
        intent_id,
        origin: CrossShardOrigin::Local,
    }
}

/// Fact recorded for a registered handoff.
pub open spec fn handoff_fact(
    export_id: [u8; 32],
    source_domain_hi: u8,
    source: AccountId,
    to: AccountId,
    target_domain: u16,
    amount: u128,
    height: u64,
    intent_id: Option<[u8; 32]>,
) -> CrossShardFact {
    CrossShardFact {
        export_id,
        source_domain_hi,
        target_domain_hi: domain_hi_of(target_domain),
        amount,
        status: CrossShardStatus::Registered,
        first_height: height,
        last_height: height,
        source: Some(source),
        to,
        intent_id,
        origin: CrossShardOrigin::Local,
    }
}

/// Fact recorded for a local import: source domain, amount and recipient
/// come from the fact already known for the export, else from the
/// provenance record, else from the import itself (with source domain 0);
/// the source account and intent id only from a known fact.
pub open spec fn import_fact(
    known: Option<CrossShardFact>,
    export_id: [u8; 32],
    domain_code: u16,
    to: AccountId,
    amount: u128,
    height: u64,
    provenance: Option<ImportProvenance>,
) -> CrossShardFact {
    let (src_hi, amt, dest) = match known {
        Some(f) => (f.source_domain_hi, f.amount, f.to),
        None => match provenance {
            Some(p) => (p.source_domain_hi, p.amount, p.to),
            None => (0u8, amount, to),
        },
    };
    CrossShardFact {
        export_id,
        source_domain_hi: src_hi,
        target_domain_hi: domain_hi_of(domain_code),
        amount: amt,
        status: CrossShardStatus::Imported,
        first_height: height,
        last_height: height,
        source: match known {
            Some(f) => f.source,
            None => None,
        },
        to: dest,
        intent_id: match known {
            Some(f) => f.intent_id,
            None => None,
        },
        origin: CrossShardOrigin::Local,
    }
}

fn store_update(facts: &mut Vec<CrossShardFact>, i: usize, f: CrossShardFact)
    requires
        ids_ascending(old(facts)@),
        i < old(facts)@.len(),
        f.export_id == old(facts)@[i as int].export_id,
    ensures
        ids_ascending(final(facts)@),
        final(facts)@.len() == old(facts)@.len(),
        facts_map(final(facts)@) == facts_map(old(facts)@).insert(f.export_id, f),
{
    let ghost e = facts@;
    let ghost id = f.export_id;
    proof {
        lemma_ascending_distinct(e);
    }
    facts.set(i, f);
    let ghost n = facts@;
    assert(n == e.update(i as int, f));
    assert(ids_ascending(n)) by {
        assert forall|a: int, b: int| 0 <= a < b < n.len() implies bytes_lt(
            (#[trigger] n[a]).export_id@,
            (#[trigger] n[b]).export_id@,
        ) by {
            assert(n[a].export_id == e[a].export_id);
            assert(n[b].export_id == e[b].export_id);
        }
    }
    proof {
        lemma_ascending_distinct(n);
        assert forall|q: [u8; 32]| #[trigger] fact_for(n, q) == if q == id {
            Some(f)
        } else {
            fact_for(e, q)
        } by {
            if q == id {
                lemma_fact_at(n, i as int);
            } else {
                lemma_fact_update_other(e, i as int, f, q);
            }
        }
        assert(facts_map(n) =~= facts_map(e).insert(id, f));
    }
}

fn store_insert(facts: &mut Vec<CrossShardFact>, i: usize, f: CrossShardFact)
    requires
        ids_ascending(old(facts)@),
        i <= old(facts)@.len(),
        forall|j: int| 0 <= j < i ==> bytes_lt((#[trigger] old(facts)@[j]).export_id@, f.export_id@),
        i < old(facts)@.len() ==> bytes_lt(f.export_id@, old(facts)@[i as int].export_id@),
        forall|j: int| 0 <= j < old(facts)@.len() ==> (#[trigger] old(facts)@[j]).export_id != f.export_id,
    ensures
        ids_ascending(final(facts)@),
        final(facts)@.len() == old(facts)@.len() + 1,
        facts_map(final(facts)@) == facts_map(old(facts)@).insert(f.export_id, f),
{
    let ghost e = facts@;
    let ghost id = f.export_id;
    proof {
        lemma_ascending_distinct(e);
    }
    facts.insert(i, f);
    let ghost n = facts@;
    assert(n == e.insert(i as int, f));
    assert(ids_ascending(n)) by {
        assert forall|a: int, b: int| 0 <= a < b < n.len() implies bytes_lt(
            (#[trigger] n[a]).export_id@,
            (#[trigger] n[b]).export_id@,
        ) by {
            if b < i {
                assert(n[a] == e[a] && n[b] == e[b]);
            } else if b == i {
                assert(n[a] == e[a]);
            } else if a == i {
                assert(n[b] == e[b - 1]);
                if b - 1 > i {
                    assert(bytes_lt(e[i as int].export_id@, e[b - 1].export_id@));
                    lemma_bytes_lt_trans(id@, e[i as int].export_id@, e[b - 1].export_id@);
                }
            } else if a < i {
                assert(n[a] == e[a] && n[b] == e[b - 1]);
                assert(bytes_lt(e[a].export_id@, id@));
                assert(bytes_lt(id@, e[i as int].export_id@));
                if b - 1 > i {
                    assert(bytes_lt(e[i as int].export_id@, e[b - 1].export_id@));
                    lemma_bytes_lt_trans(id@, e[i as int].export_id@, e[b - 1].export_id@);
                }
                lemma_bytes_lt_trans(e[a].export_id@, id@, e[b - 1].export_id@);
            } else {
                assert(n[a] == e[a - 1] && n[b] == e[b - 1]);
            }
        }
    }
    proof {
        lemma_ascending_distinct(n);
        assert forall|q: [u8; 32]| #[trigger] fact_for(n, q) == if q == id {
            Some(f)
        } else {
            fact_for(e, q)
        } by {
            if q == id {
                lemma_fact_at(n, i as int);
            } else {
                lemma_fact_insert_other(e, i as int, f, q);
            }
        }
        assert(facts_map(n) =~= facts_map(e).insert(id, f));
    }
}

fn evict_if_over(facts: &mut Vec<CrossShardFact>)
    requires
        ids_ascending(old(facts)@),
        old(facts)@.len() <= FACT_CAP + 1,
    ensures
        ids_ascending(final(facts)@),
        final(facts)@.len() <= FACT_CAP,
        facts_map(final(facts)@) == evict_over_cap(facts_map(old(facts)@)),
{
    let ghost n1 = facts@;
    let ghost m1 = facts_map(n1);
    proof {
        lemma_facts(n1);
        lemma_dom_len(n1);
    }
    if facts.len() > FACT_CAP {
        let o = oldest_index(facts);
        let ghost k = n1[o as int].export_id;
        proof {
            assert(is_oldest(m1, k)) by {
                assert forall|k2: [u8; 32]| #[trigger] m1.dom().contains(k2) implies older_or_same(
                    m1[k],
                    m1[k2],
                ) by {
                    let j = choose|j: int| 0 <= j < n1.len() && (#[trigger] n1[j]).export_id == k2;
                    assert(m1[k2] == n1[j]);
                    assert(m1[k] == n1[o as int]);
                }
            }
            let c = choose|k3: [u8; 32]| is_oldest(m1, k3);
            lemma_oldest_unique(m1, c, k);
        }
        facts.remove(o);
        let ghost n2 = facts@;
        assert(n2 == n1.remove(o as int));
        assert(ids_ascending(n2)) by {
            assert forall|a: int, b: int| 0 <= a < b < n2.len() implies bytes_lt(
                (#[trigger] n2[a]).export_id@,
                (#[trigger] n2[b]).export_id@,
            ) by {
                let a0 = if a < o {
                    a
                } else {
                    a + 1
                };
                let b0 = if b < o {
                    b
                } else {
                    b + 1
                };
                assert(n2[a] == n1[a0] && n2[b] == n1[b0]);
            }
        }
        proof {
            assert forall|q: [u8; 32]| #[trigger] fact_for(n2, q) == if q == k {
                None
            } else {
                fact_for(n1, q)
            } by {
                lemma_fact_remove(n1, o as int, q);
            }
            assert(facts_map(n2) =~= m1.remove(k));
        }
    }
}

impl CrossShardLedger {
    /// Inserts or updates the fact for `fact.export_id` by the upsert rule,
    /// then drops the oldest fact if the ledger is over `FACT_CAP`. Returns
    /// whether the stored fact changed (always true for a new id).
    fn upsert(&mut self, fact: CrossShardFact) -> (r: bool)
        ensures
            (final(self)@, r) == upsert_result(old(self)@, fact),
    {
        proof {
            use_type_invariant(&*self);
            lemma_facts(self.entries());
        }
        let ghost e = self.entries();
        let ghost m0 = self@;
        let ghost id = fact.export_id;
        let loc = self.locate(&fact.export_id);
        let mut facts: Vec<CrossShardFact> = Vec::new();
        std::mem::swap(&mut facts, &mut self.facts);
        let changed;
        match loc {
            Ok(i) => {
                let existing = facts[i];
                assert(m0.dom().contains(id) && m0[id] == existing) by {
                    lemma_fact_at(e, i as int);
                }
                if fact.status.rank() < existing.status.rank() {
                    self.facts = facts;
                    return false;
                }
                let mut f = fact;
                if existing.origin == CrossShardOrigin::Local && fact.origin
                    == CrossShardOrigin::TrustedPeer {
                    f.origin = CrossShardOrigin::Local;
                }
                if existing.first_height < f.first_height {
                    f.first_height = existing.first_height;
                }
                if f.source.is_none() {
                    f.source = existing.source;
                }
                if f.intent_id.is_none() {
                    f.intent_id = existing.intent_id;
                }
                assert(upsert_merge(existing, fact) == Some(f));
                changed = !fact_eq(&existing, &f);
                store_update(&mut facts, i, f);
            },
            Err(i) => {
                assert(!m0.dom().contains(id));
                store_insert(&mut facts, i, fact);
                changed = true;
            },
        }
        evict_if_over(&mut facts);
        self.facts = facts;
        changed
    }

    /// Records a fact seen locally.
    pub fn insert_fact(&mut self, fact: CrossShardFact) -> (r: bool)
        ensures
            (final(self)@, r) == upsert_result(old(self)@, fact),
    {
        self.upsert(fact)
    }

    /// Records a fact relayed by a trusted peer (marked as a peer
    /// observation unless the fact is already known locally).
    pub fn insert_peer_fact(&mut self, fact: CrossShardFact) -> (r: bool)
        ensures
            (final(self)@, r) == upsert_result(
                old(self)@,
                CrossShardFact { origin: CrossShardOrigin::TrustedPeer, ..fact },
            ),
    {
        let mut f = fact;
        f.origin = CrossShardOrigin::TrustedPeer;
        self.upsert(f)
    }

    /// Records a local export at `height` (`domain_code` is the exporting
    /// transaction's domain, `source` its signer account).
    pub fn record_export(
        &mut self,
        export_id: [u8; 32],
        domain_code: u16,
        source: AccountId,
        to: AccountId,
        target_domain: u16,
        amount: u128,
        height: u64,
        intent_id: Option<[u8; 32]>,
    )
        ensures
            final(self)@ == upsert_result(
                old(self)@,
                export_fact(export_id, domain_code, source, to, target_domain, amount, height, intent_id),
            ).0,
    {
        let fact = CrossShardFact {
            export_id,
            source_domain_hi: domain_hi(domain_code),
            target_domain_hi: domain_hi(target_domain),
            amount,
            status: CrossShardStatus::Exported,
            first_height: height,
            last_height: height,
            source: Some(source),
            to,
            intent_id,
            origin: CrossShardOrigin::Local,
        };
        self.upsert(fact);
    }

    /// Records a registered handoff at `height`.
    pub fn record_handoff(
        &mut self,
        export_id: [u8; 32],
        source_domain_hi: u8,
        source: AccountId,
        to: AccountId,
        target_domain: u16,
        amount: u128,
        height: u64,
        intent_id: Option<[u8; 32]>,
    )
        ensures
            final(self)@ == upsert_result(
                old(self)@,
                handoff_fact(export_id, source_domain_hi, source, to, target_domain, amount, height, intent_id),
            ).0,
    {
        let fact = CrossShardFact {
            export_id,
            source_domain_hi,
            target_domain_hi: domain_hi(target_domain),
            amount,
            status: CrossShardStatus::Registered,
            first_height: height,
            last_height: height,
            source: Some(source),
            to,
            intent_id,
            origin: CrossShardOrigin::Local,
        };
        self.upsert(fact);
    }

    /// Records a local import at `height` (`domain_code` is the importing
    /// transaction's domain).
    pub fn record_import(
        &mut self,
        export_id: [u8; 32],
        domain_code: u16,
        to: AccountId,
        amount: u128,
        height: u64,
        provenance: Option<ImportProvenance>,
    )
        ensures
            final(self)@ == upsert_result(
                old(self)@,
                import_fact(
                    old(self)@.get(export_id),
                    export_id,
                    domain_code,
                    to,
                    amount,
                    height,
                    provenance,
                ),
            ).0,
    {
        let known: Option<CrossShardFact> = match self.fact(&export_id) {
            Some(f) => Some(*f),
            None => None,
        };
        let (src_hi, amt, dest) = match known {
            Some(f) => (f.source_domain_hi, f.amount, f.to),
            None => match provenance {
                Some(p) => (p.source_domain_hi, p.amount, p.to),
                None => (0u8, amount, to),
            },
        };
        let fact = CrossShardFact {
            export_id,
            source_domain_hi: src_hi,
            target_domain_hi: domain_hi(domain_code),
            amount: amt,
            status: CrossShardStatus::Imported,
            first_height: height,
            last_height: height,
            source: match known {
                Some(f) => f.source,
                None => None,
            },
            to: dest,
            intent_id: match known {
                Some(f) => f.intent_id,
                None => None,
            },
            origin: CrossShardOrigin::Local,
        };
        self.upsert(fact);
    }
}

// ---------------------------------------------------------------------------
// Ledger laws
// ---------------------------------------------------------------------------

proof fn lemma_evict_keeps_values(m: Map<[u8; 32], CrossShardFact>, k: [u8; 32])
    requires
        evict_over_cap(m).dom().contains(k),
    ensures
        m.dom().contains(k),
        evict_over_cap(m)[k] == m[k],
{
}

/// No upsert moves a stored fact backwards: a fact still present afterwards
/// has a lifecycle rank at least as high, a first height no higher, and a
/// locally observed fact stays local.
pub proof fn lemma_upsert_monotone(m: Map<[u8; 32], CrossShardFact>, fact: CrossShardFact, k: [u8; 32])
    requires
        keyed_by_id(m),
        m.dom().contains(k),
        upsert_result(m, fact).0.dom().contains(k),
    ensures
        status_rank(upsert_result(m, fact).0[k].status) >= status_rank(m[k].status),
        upsert_result(m, fact).0[k].first_height <= m[k].first_height,
        m[k].origin == CrossShardOrigin::Local ==> upsert_result(m, fact).0[k].origin
            == CrossShardOrigin::Local,
{
    let id = fact.export_id;
    if m.dom().contains(id) {
        match upsert_merge(m[id], fact) {
            None => {},
            Some(v) => {
                lemma_evict_keeps_values(m.insert(id, v), k);
            },
        }
    } else {
        lemma_evict_keeps_values(m.insert(id, fact), k);
    }
}

/// An update that does not move the lifecycle backwards is stored (unless
/// the cap evicts it): the fact's own status, the earlier of the two first
/// heights, and a local origin kept local.
pub proof fn lemma_upsert_stores_update(m: Map<[u8; 32], CrossShardFact>, fact: CrossShardFact)
    requires
        m.dom().contains(fact.export_id) ==> status_rank(fact.status) >= status_rank(
            m[fact.export_id].status,
        ),
        upsert_result(m, fact).0.dom().contains(fact.export_id),
    ensures
        upsert_result(m, fact).0[fact.export_id].status == fact.status,
        upsert_result(m, fact).0[fact.export_id].first_height == if m.dom().contains(
            fact.export_id,
        ) && m[fact.export_id].first_height < fact.first_height {
            m[fact.export_id].first_height
        } else {
            fact.first_height
        },
        m.dom().contains(fact.export_id) && m[fact.export_id].origin == CrossShardOrigin::Local
            ==> upsert_result(m, fact).0[fact.export_id].origin == CrossShardOrigin::Local,
{
    let id = fact.export_id;
    if m.dom().contains(id) {
        let v = upsert_merge(m[id], fact)->0;
        lemma_evict_keeps_values(m.insert(id, v), id);
    } else {
        lemma_evict_keeps_values(m.insert(id, fact), id);
    }
}

/// An update that would move a fact's lifecycle backwards is refused: it
/// reports no change and leaves the ledger as it was.
pub proof fn lemma_upsert_refuses_regression(m: Map<[u8; 32], CrossShardFact>, fact: CrossShardFact)
    requires
        m.dom().contains(fact.export_id),
        status_rank(fact.status) < status_rank(m[fact.export_id].status),
    ensures
        upsert_result(m, fact) == (m, false),
{
}

/// Delivering the same fact again (a peer relaying twice) changes nothing
/// and reports no change, as long as the first delivery left it stored.
pub proof fn lemma_upsert_repeat_is_noop(m: Map<[u8; 32], CrossShardFact>, fact: CrossShardFact)
    requires
        upsert_result(m, fact).0.dom().contains(fact.export_id),
        upsert_result(m, fact).0.dom().len() <= FACT_CAP,
    ensures
        upsert_result(upsert_result(m, fact).0, fact) == (upsert_result(m, fact).0, false),
{
    let id = fact.export_id;
    let m2 = upsert_result(m, fact).0;
    if m.dom().contains(id) {
        match upsert_merge(m[id], fact) {
            None => {},
            Some(v) => {
                lemma_evict_keeps_values(m.insert(id, v), id);
                assert(m2[id] == v);
                assert(upsert_merge(v, fact) == Some(v));
                assert(m2.insert(id, v) =~= m2);
            },
        }
    } else {
        lemma_evict_keeps_values(m.insert(id, fact), id);
        assert(m2[id] == fact);
        assert(upsert_merge(fact, fact) == Some(fact));
        assert(m2.insert(id, fact) =~= m2);
    }
}

// ---------------------------------------------------------------------------
// Facts for a target domain
// ---------------------------------------------------------------------------

/// `a` comes strictly before `b` by (last height, export id).
pub open spec fn height_id_lt(a: CrossShardFact, b: CrossShardFact) -> bool {
    a.last_height < b.last_height || (a.last_height == b.last_height && bytes_lt(
        a.export_id@,
        b.export_id@,
    ))
}

/// A fact bound for `target` last seen at `from_height` or later.
pub open spec fn for_target(f: CrossShardFact, target: u8, from_height: u64) -> bool {
    f.target_domain_hi == target && f.last_height >= from_height
}

/// `s` lists the facts of `m` bound for `target` from `from_height` on,
/// each once, by (last height, export id).
pub open spec fn target_order(
    m: Map<[u8; 32], CrossShardFact>,
    target: u8,
    from_height: u64,
    s: Seq<CrossShardFact>,
) -> bool {
    &&& forall|v: CrossShardFact|
        #[trigger] s.contains(v) <==> (m.dom().contains(v.export_id) && m[v.export_id] == v
            && for_target(v, target, from_height))
    &&& forall|a: int, b: int| 0 <= a < b < s.len() ==> height_id_lt(#[trigger] s[a], #[trigger] s[b])
}

/// `limit` clamped to `1..=FACT_CAP`.
pub open spec fn target_cap(limit: usize) -> int {
    if limit < 1 {
        1
    } else if limit > FACT_CAP {
        FACT_CAP as int
    } else {
        limit as int
    }
}

impl CrossShardLedger {
    /// Facts bound for `target_domain_hi` with last height at least
    /// `from_height`, ordered by last height then export id, at most
    /// `limit` (clamped to `1..=FACT_CAP`) of them.
    pub fn facts_for_target(&self, target_domain_hi: u8, from_height: u64, limit: usize) -> (r: Vec<
        CrossShardFact,
    >)
        ensures
            exists|s: Seq<CrossShardFact>|
                #[trigger] target_order(self@, target_domain_hi, from_height, s) && r@ == s.take(
                    if s.len() < target_cap(limit) {
                        s.len() as int
                    } else {
                        target_cap(limit)
                    },
                ),
    {
        proof {
            use_type_invariant(self);
            lemma_facts(self.entries());
        }
        let ghost e = self.entries();
        let mut out: Vec<CrossShardFact> = Vec::new();
        let mut i: usize = 0;
        while i < self.facts.len()
            invariant
                e == self.facts@,
                ids_ascending(e),
                i <= e.len(),
                forall|v: CrossShardFact|
                    #[trigger] out@.contains(v) <==> (exists|j: int|
                        0 <= j < i && e[j] == v && for_target(v, target_domain_hi, from_height)),
                forall|a: int, b: int|
                    0 <= a < b < out@.len() ==> height_id_lt(#[trigger] out@[a], #[trigger] out@[b]),
                forall|a: int, t: int|
                    0 <= a < out@.len() && i <= t < e.len() ==> bytes_lt(
                        (#[trigger] out@[a]).export_id@,
                        (#[trigger] e[t]).export_id@,
                    ),
            decreases e.len() - i,
        {
            let f = self.facts[i];
            if f.target_domain_hi == target_domain_hi && f.last_height >= from_height {
                let mut p: usize = 0;
                while p < out.len() && out[p].last_height <= f.last_height
                    invariant
                        p <= out@.len(),
                        forall|q: int| 0 <= q < p ==> (#[trigger] out@[q]).last_height <= f.last_height,
                    decreases out@.len() - p,
                {
                    p = p + 1;
                }
                let ghost o = out@;
                out.insert(p, f);
                proof {
                    let n = out@;
                    assert(n == o.insert(p as int, f));
                    assert forall|v: CrossShardFact| #[trigger] n.contains(v) <==> (exists|j: int|
                        0 <= j < i + 1 && e[j] == v && for_target(v, target_domain_hi, from_height)) by {
                        if n.contains(v) {
                            let w = choose|w: int| 0 <= w < n.len() && n[w] == v;
                            if w < p {
                                assert(o[w] == v);
                                assert(o.contains(v));
                            } else if w > p {
                                assert(o[w - 1] == v);
                                assert(o.contains(v));
                            } else {
                                assert(e[i as int] == v);
                            }
                        }
                        if exists|j: int| 0 <= j < i + 1 && e[j] == v && for_target(v, target_domain_hi, from_height) {
                            let j = choose|j: int| 0 <= j < i + 1 && e[j] == v && for_target(v, target_domain_hi, from_height);
                            if j == i {
                                assert(n[p as int] == v);
                            } else {
                                assert(o.contains(v));
                                let w = choose|w: int| 0 <= w < o.len() && o[w] == v;
                                if w < p {
                                    assert(n[w] == v);
                                } else {
                                    assert(n[w + 1] == v);
                                }
                            }
                        }
                    }
                    assert forall|a: int, b: int| 0 <= a < b < n.len() implies height_id_lt(#[trigger] n[a], #[trigger] n[b]) by {
                        if b < p {
                            assert(n[a] == o[a] && n[b] == o[b]);
                        } else if b == p {
                            assert(n[a] == o[a]);
                            assert(bytes_lt(o[a].export_id@, e[i as int].export_id@));
                        } else if a == p {
                            assert(n[b] == o[b - 1]);
                            assert(o[p as int].last_height > f.last_height);
                            if b - 1 > p {
                                assert(height_id_lt(o[p as int], o[b - 1]));
                            }
                        } else if a < p {
                            assert(n[a] == o[a] && n[b] == o[b - 1]);
                        } else {
                            assert(n[a] == o[a - 1] && n[b] == o[b - 1]);
                        }
                    }
                    assert forall|a: int, t: int|
                        0 <= a < n.len() && i + 1 <= t < e.len() implies bytes_lt(
                        (#[trigger] n[a]).export_id@,
                        (#[trigger] e[t]).export_id@,
                    ) by {
                        if a < p {
                            assert(n[a] == o[a]);
                        } else if a > p {
                            assert(n[a] == o[a - 1]);
                        } else {
                            assert(bytes_lt(e[i as int].export_id@, e[t].export_id@));
                        }
                    }
                }
            } else {
                proof {
                    assert forall|a: int, t: int|
                        0 <= a < out@.len() && i + 1 <= t < e.len() implies bytes_lt(
                        (#[trigger] out@[a]).export_id@,
                        (#[trigger] e[t]).export_id@,
                    ) by {}
                    assert forall|v: CrossShardFact| #[trigger] out@.contains(v) <==> (exists|j: int|
                        0 <= j < i + 1 && e[j] == v && for_target(v, target_domain_hi, from_height)) by {
                        if exists|j: int| 0 <= j < i + 1 && e[j] == v && for_target(v, target_domain_hi, from_height) {
                            let j = choose|j: int| 0 <= j < i + 1 && e[j] == v && for_target(v, target_domain_hi, from_height);
                            assert(j != i);
                        }
                    }
                }
            }
            i = i + 1;
        }
        let ghost s = out@;
        proof {
            let m = self@;
            assert forall|v: CrossShardFact| #[trigger] s.contains(v) <==> (m.dom().contains(v.export_id)
                && m[v.export_id] == v && for_target(v, target_domain_hi, from_height)) by {
                if s.contains(v) {
                    let j = choose|j: int| 0 <= j < e.len() && e[j] == v && for_target(v, target_domain_hi, from_height);
                    assert(fact_for(e, e[j].export_id) == Some(e[j]));
                }
                if m.dom().contains(v.export_id) && m[v.export_id] == v && for_target(v, target_domain_hi, from_height) {
                    let j = choose|j: int| 0 <= j < e.len() && (#[trigger] e[j]).export_id == v.export_id;
                    assert(e[j] == v);
                }
            }
            assert(target_order(m, target_domain_hi, from_height, s));
        }
        let capped: usize = if limit < 1 {
            1
        } else if limit > FACT_CAP {
            FACT_CAP
        } else {
            limit
        };
        out.truncate(capped);
        out
    }
}

// ---------------------------------------------------------------------------
// Summary
// ---------------------------------------------------------------------------

/// Per-domain export and import tallies.
#[derive(Clone, Copy, Debug, PartialEq, Eq, Structural)]
pub struct CrossShardDomainSummary {
    pub domain_hi: u8,
    pub exported_count: u64,
    pub exported_amount: u128,
    pub imported_count: u64,
    pub imported_amount: u128,
    pub pending_count: u64,
    pub trusted_peer_observed_count: u64,
}

/// Ledger-wide tallies and the per-domain rows in domain order.
#[derive(Clone, Debug)]
pub struct CrossShardSummary {
    pub scope: &'static str,
    pub total_exported_count: u64,
    pub total_exported_amount: u128,
    pub total_imported_count: u64,
    pub total_imported_amount: u128,
    pub pending_count: u64,
    pub trusted_peer_observed_count: u64,
    pub by_domain_hi: Vec<CrossShardDomainSummary>,
}

pub open spec fn sat64(a: u64, b: u64) -> u64 {
    if a + b > u64::MAX {
        u64::MAX
    } else {
        (a + b) as u64
    }
}

pub open spec fn sat128(a: u128, b: u128) -> u128 {
    if a + b > u128::MAX {
        u128::MAX
    } else {
        (a + b) as u128
    }
}

pub open spec fn zero_row() -> CrossShardDomainSummary {
    CrossShardDomainSummary {
        domain_hi: 0,
        exported_count: 0,
        exported_amount: 0,
        imported_count: 0,
        imported_amount: 0,
        pending_count: 0,
        trusted_peer_observed_count: 0,
    }
}

pub open spec fn is_peer(f: CrossShardFact) -> bool {
    f.origin == CrossShardOrigin::TrustedPeer
}

pub open spec fn is_imported(f: CrossShardFact) -> bool {
    f.status == CrossShardStatus::Imported
}

/// Whether fact `f` counts in domain `d`'s row: as its target, or as the
/// source of an import.
pub open spec fn touches(f: CrossShardFact, d: u8) -> bool {
    f.target_domain_hi == d || (is_imported(f) && f.source_domain_hi == d)
}

/// Domain `d`'s row after counting `f`: the target domain counts the
/// export (and, unless imported, a pending one); the source domain of an
/// import counts the import; peer observations count on the target, and on
/// the source of a cross-domain import. All tallies saturate.
pub open spec fn dom_step(acc: CrossShardDomainSummary, f: CrossShardFact, d: u8) -> CrossShardDomainSummary {
    let a1 = if f.target_domain_hi == d {
        CrossShardDomainSummary {
            domain_hi: d,
            trusted_peer_observed_count: if is_peer(f) {
                sat64(acc.trusted_peer_observed_count, 1)
            } else {
                acc.trusted_peer_observed_count
            },
            exported_count: sat64(acc.exported_count, 1),
            exported_amount: sat128(acc.exported_amount, f.amount),
            ..acc
        }
    } else {
        acc
    };
    if is_imported(f) {
        if f.source_domain_hi == d {
            CrossShardDomainSummary {
                domain_hi: d,
                trusted_peer_observed_count: if is_peer(f) && f.source_domain_hi != f.target_domain_hi {
                    sat64(a1.trusted_peer_observed_count, 1)
                } else {
                    a1.trusted_peer_observed_count
                },
                imported_count: sat64(a1.imported_count, 1),
                imported_amount: sat128(a1.imported_amount, f.amount),
                ..a1
            }
        } else {
            a1
        }
    } else if f.target_domain_hi == d {
        CrossShardDomainSummary { pending_count: sat64(a1.pending_count, 1), ..a1 }
    } else {
        a1
    }
}

pub open spec fn dom_row(e: Seq<CrossShardFact>, d: u8) -> CrossShardDomainSummary
    decreases e.len(),
{
    if e.len() == 0 {
        zero_row()
    } else {
        dom_step(dom_row(e.drop_last(), d), e.last(), d)
    }
}

pub open spec fn touched(e: Seq<CrossShardFact>, d: u8) -> bool
    decreases e.len(),
{
    if e.len() == 0 {
        false
    } else {
        touched(e.drop_last(), d) || touches(e.last(), d)
    }
}

/// Rows of the domains below `d` that some fact touches, in domain order.
pub open spec fn domain_rows_upto(e: Seq<CrossShardFact>, d: nat) -> Seq<CrossShardDomainSummary>
    decreases d,
{
    if d == 0 {
        Seq::empty()
    } else {
        let prev = domain_rows_upto(e, (d - 1) as nat);
        if touched(e, (d - 1) as u8) {
            prev.push(dom_row(e, (d - 1) as u8))
        } else {
            prev
        }
    }
}

/// Ledger-wide tallies: (exported count, exported amount, imported count,
/// imported amount, pending count, peer-observed count).
pub struct Totals {
    pub exported_count: u64,
    pub exported_amount: u128,
    pub imported_count: u64,
    pub imported_amount: u128,
    pub pending_count: u64,
    pub peer_count: u64,
}

pub open spec fn totals(e: Seq<CrossShardFact>) -> Totals
    decreases e.len(),
{
    if e.len() == 0 {
        Totals {
            exported_count: 0,
            exported_amount: 0,
            imported_count: 0,
            imported_amount: 0,
            pending_count: 0,
            peer_count: 0,
        }
    } else {
        let t = totals(e.drop_last());
        let f = e.last();
        Totals {
            exported_count: sat64(t.exported_count, 1),
            exported_amount: sat128(t.exported_amount, f.amount),
            imported_count: if is_imported(f) {
                sat64(t.imported_count, 1)
            } else {
                t.imported_count
            },
            imported_amount: if is_imported(f) {
                sat128(t.imported_amount, f.amount)
            } else {
                t.imported_amount
            },
            pending_count: if is_imported(f) {
                t.pending_count
            } else {
                sat64(t.pending_count, 1)
            },
            peer_count: if is_peer(f) {
                sat64(t.peer_count, 1)
            } else {
                t.peer_count
            },
        }
    }
}

/// Below the saturation point every fact is counted once as exported and
/// once as either imported or pending.
proof fn lemma_totals_counts(e: Seq<CrossShardFact>)
    requires
        e.len() <= FACT_CAP,
    ensures
        totals(e).exported_count == e.len(),
        totals(e).imported_count + totals(e).pending_count == e.len(),
    decreases e.len(),
{
    if e.len() > 0 {
        lemma_totals_counts(e.drop_last());
    }
}

/// `n`, saturated at `u64::MAX`.
pub open spec fn cap64(n: nat) -> u64 {
    if n > u64::MAX {
        u64::MAX
    } else {
        n as u64
    }
}

/// `n`, saturated at `u128::MAX`.
pub open spec fn cap128(n: nat) -> u128 {
    if n > u128::MAX {
        u128::MAX
    } else {
        n as u128
    }
}

/// Sum of the amounts of `s`.
pub open spec fn amount_sum(s: Seq<CrossShardFact>) -> nat
    decreases s.len(),
{
    if s.len() == 0 {
        0
    } else {
        amount_sum(s.drop_last()) + s.last().amount as nat
    }
}

/// Facts exported to domain `d`.
pub open spec fn exports_to(e: Seq<CrossShardFact>, d: u8) -> Seq<CrossShardFact> {
    e.filter(|f: CrossShardFact| f.target_domain_hi == d)
}

/// Imported facts whose source is domain `d`.
pub open spec fn imports_from(e: Seq<CrossShardFact>, d: u8) -> Seq<CrossShardFact> {
    e.filter(|f: CrossShardFact| f.status == CrossShardStatus::Imported && f.source_domain_hi == d)
}

/// Facts exported to domain `d` and not imported yet.
pub open spec fn pending_to(e: Seq<CrossShardFact>, d: u8) -> Seq<CrossShardFact> {
    e.filter(|f: CrossShardFact| f.status != CrossShardStatus::Imported && f.target_domain_hi == d)
}

/// Facts a trusted peer relayed that export to domain `d`.
pub open spec fn peer_exports_to(e: Seq<CrossShardFact>, d: u8) -> Seq<CrossShardFact> {
    e.filter(|f: CrossShardFact| f.origin == CrossShardOrigin::TrustedPeer && f.target_domain_hi == d)
}

/// Facts a trusted peer relayed that are imports from domain `d` into
/// another domain.
pub open spec fn peer_imports_from(e: Seq<CrossShardFact>, d: u8) -> Seq<CrossShardFact> {
    e.filter(
        |f: CrossShardFact|
            f.origin == CrossShardOrigin::TrustedPeer && f.status == CrossShardStatus::Imported
                && f.source_domain_hi == d && f.target_domain_hi != d,
    )
}

/// A domain row holds the tallies of the facts that touch its domain.
pub open spec fn row_tallies(e: Seq<CrossShardFact>, row: CrossShardDomainSummary) -> bool {
    let d = row.domain_hi;
    &&& row.exported_count == cap64(exports_to(e, d).len())
    &&& row.exported_amount == cap128(amount_sum(exports_to(e, d)))
    &&& row.imported_count == cap64(imports_from(e, d).len())
    &&& row.imported_amount == cap128(amount_sum(imports_from(e, d)))
    &&& row.pending_count == cap64(pending_to(e, d).len())
    &&& row.trusted_peer_observed_count == cap64(
        peer_exports_to(e, d).len() + peer_imports_from(e, d).len(),
    )
}

proof fn lemma_amount_sum_push(s: Seq<CrossShardFact>, f: CrossShardFact)
    ensures
        amount_sum(s.push(f)) == amount_sum(s) + f.amount,
{
    assert(s.push(f).drop_last() =~= s);
}

/// The row of domain `d` counts, each saturating: every fact exported to
/// `d` (with its amount), every import from `d` (with its amount), every
/// fact exported to `d` still pending, and as trusted-peer observations
/// every peer fact exported to `d` plus every peer import from `d` into
/// another domain.
pub proof fn lemma_domain_row_tallies(e: Seq<CrossShardFact>, d: u8)
    ensures
        dom_row(e, d).exported_count == cap64(exports_to(e, d).len()),
        dom_row(e, d).exported_amount == cap128(amount_sum(exports_to(e, d))),
        dom_row(e, d).imported_count == cap64(imports_from(e, d).len()),
        dom_row(e, d).imported_amount == cap128(amount_sum(imports_from(e, d))),
        dom_row(e, d).pending_count == cap64(pending_to(e, d).len()),
        dom_row(e, d).trusted_peer_observed_count == cap64(
            peer_exports_to(e, d).len() + peer_imports_from(e, d).len(),
        ),
        touched(e, d) ==> dom_row(e, d).domain_hi == d,
    decreases e.len(),
{
    reveal(Seq::filter);
    if e.len() == 0 {
    } else {
        let p = e.drop_last();
        let f = e.last();
        lemma_domain_row_tallies(p, d);
        lemma_amount_sum_push(exports_to(p, d), f);
        lemma_amount_sum_push(imports_from(p, d), f);
    }
}

/// Imported facts.
pub open spec fn all_imported(e: Seq<CrossShardFact>) -> Seq<CrossShardFact> {
    e.filter(|f: CrossShardFact| f.status == CrossShardStatus::Imported)
}

/// Facts not imported yet.
pub open spec fn all_pending(e: Seq<CrossShardFact>) -> Seq<CrossShardFact> {
    e.filter(|f: CrossShardFact| f.status != CrossShardStatus::Imported)
}

/// Facts a trusted peer relayed.
pub open spec fn all_peer(e: Seq<CrossShardFact>) -> Seq<CrossShardFact> {
    e.filter(|f: CrossShardFact| f.origin == CrossShardOrigin::TrustedPeer)
}

/// The ledger-wide tallies count, each saturating: every fact as exported
/// (with its amount), the imported ones (with their amounts), the pending
/// ones, and those a trusted peer relayed.
pub proof fn lemma_totals_tallies(e: Seq<CrossShardFact>)
    ensures
        totals(e).exported_count == cap64(e.len()),
        totals(e).exported_amount == cap128(amount_sum(e)),
        totals(e).imported_count == cap64(all_imported(e).len()),
        totals(e).imported_amount == cap128(amount_sum(all_imported(e))),
        totals(e).pending_count == cap64(all_pending(e).len()),
        totals(e).peer_count == cap64(all_peer(e).len()),
    decreases e.len(),
{
    reveal(Seq::filter);
    if e.len() > 0 {
        let p = e.drop_last();
        lemma_totals_tallies(p);
        lemma_amount_sum_push(all_imported(p), e.last());
        lemma_amount_sum_push(p, e.last());
        assert(p.push(e.last()) =~= e);
    }
}

proof fn lemma_touched_iff(e: Seq<CrossShardFact>, d: u8)
    ensures
        touched(e, d) <==> exists|k: int| 0 <= k < e.len() && #[trigger] touches(e[k], d),
    decreases e.len(),
{
    if e.len() > 0 {
        let p = e.drop_last();
        lemma_touched_iff(p, d);
        if exists|k: int| 0 <= k < p.len() && #[trigger] touches(p[k], d) {
            let k = choose|k: int| 0 <= k < p.len() && #[trigger] touches(p[k], d);
            assert(e[k] == p[k]);
        }
        if exists|k: int| 0 <= k < e.len() && #[trigger] touches(e[k], d) {
            let k = choose|k: int| 0 <= k < e.len() && #[trigger] touches(e[k], d);
            if k < e.len() - 1 {
                assert(p[k] == e[k]);
            }
        }
    }
}

proof fn lemma_rows_upto(e: Seq<CrossShardFact>, n: nat)
    requires
        n <= 256,
    ensures
        forall|i: int|
            0 <= i < domain_rows_upto(e, n).len() ==> {
                let row = #[trigger] domain_rows_upto(e, n)[i];
                &&& row == dom_row(e, row.domain_hi)
                &&& touched(e, row.domain_hi)
                &&& row.domain_hi < n
            },
        forall|i: int, j: int|
            0 <= i < j < domain_rows_upto(e, n).len() ==> (#[trigger] domain_rows_upto(e, n)[i]).domain_hi
                < (#[trigger] domain_rows_upto(e, n)[j]).domain_hi,
        forall|d: u8|
            d < n && #[trigger] touched(e, d) ==> exists|i: int|
                0 <= i < domain_rows_upto(e, n).len() && (#[trigger] domain_rows_upto(e, n)[i]).domain_hi
                    == d,
    decreases n,
{
    if n > 0 {
        let m = (n - 1) as nat;
        lemma_rows_upto(e, m);
        let prev = domain_rows_upto(e, m);
        let d0 = m as u8;
        lemma_domain_row_tallies(e, d0);
        let cur = domain_rows_upto(e, n);
        if touched(e, d0) {
            assert(cur == prev.push(dom_row(e, d0)));
            assert(cur[prev.len() as int].domain_hi == d0);
        } else {
            assert(cur == prev);
        }
        assert forall|d: u8| d < n && #[trigger] touched(e, d) implies exists|i: int|
            0 <= i < cur.len() && (#[trigger] cur[i]).domain_hi == d by {
            if d < m {
                let i = choose|i: int| 0 <= i < prev.len() && (#[trigger] prev[i]).domain_hi == d;
                assert(cur[i] == prev[i]);
            } else {
                assert(d == d0);
                assert(cur[prev.len() as int].domain_hi == d);
            }
        }
        assert forall|i: int| 0 <= i < cur.len() implies {
            let row = #[trigger] cur[i];
            &&& row == dom_row(e, row.domain_hi)
            &&& touched(e, row.domain_hi)
            &&& row.domain_hi < n
        } by {
            if i < prev.len() {
                assert(cur[i] == prev[i]);
            }
        }
        assert forall|i: int, j: int| 0 <= i < j < cur.len() implies (#[trigger] cur[i]).domain_hi
            < (#[trigger] cur[j]).domain_hi by {
            assert(cur[i] == prev[i]);
            if j < prev.len() {
                assert(cur[j] == prev[j]);
            }
        }
    }
}

impl Default for CrossShardDomainSummary {
    fn default() -> (r: Self)
        ensures
            r == zero_row(),
    {
        CrossShardDomainSummary {
            domain_hi: 0,
            exported_count: 0,
            exported_amount: 0,
            imported_count: 0,
            imported_amount: 0,
            pending_count: 0,
            trusted_peer_observed_count: 0,
        }
    }
}

fn dom_apply(acc: CrossShardDomainSummary, f: &CrossShardFact, d: u8) -> (r: CrossShardDomainSummary)
    ensures
        r == dom_step(acc, *f, d),
{
    let mut a = acc;
    if f.target_domain_hi == d {
        a.domain_hi = d;
        if f.origin == CrossShardOrigin::TrustedPeer {
            a.trusted_peer_observed_count = a.trusted_peer_observed_count.saturating_add(1);
        }
        a.exported_count = a.exported_count.saturating_add(1);
        a.exported_amount = a.exported_amount.saturating_add(f.amount);
    }
    if f.status == CrossShardStatus::Imported {
        if f.source_domain_hi == d {
            a.domain_hi = d;
            if f.origin == CrossShardOrigin::TrustedPeer && f.source_domain_hi
                != f.target_domain_hi {
                a.trusted_peer_observed_count = a.trusted_peer_observed_count.saturating_add(1);
            }
            a.imported_count = a.imported_count.saturating_add(1);
            a.imported_amount = a.imported_amount.saturating_add(f.amount);
        }
    } else if f.target_domain_hi == d {
        a.pending_count = a.pending_count.saturating_add(1);
    }
    a
}

impl CrossShardLedger {
    /// Tallies over every fact: totals, and one row per domain touched by
    /// some fact (as target, or as source of an import), in domain order.
    pub fn summary(&self) -> (r: CrossShardSummary)
        ensures
            r.scope@ == "local_plus_trusted_peer_observations"@,
            r.total_exported_count == totals(self.entries()).exported_count,
            r.total_exported_amount == totals(self.entries()).exported_amount,
            r.total_imported_count == totals(self.entries()).imported_count,
            r.total_imported_amount == totals(self.entries()).imported_amount,
            r.pending_count == totals(self.entries()).pending_count,
            r.trusted_peer_observed_count == totals(self.entries()).peer_count,
            r.by_domain_hi@ == domain_rows_upto(self.entries(), 256),
            r.total_exported_count == self@.dom().len(),
            r.total_imported_count + r.pending_count == r.total_exported_count,
            r.total_exported_amount == cap128(amount_sum(self.entries())),
            r.total_imported_count == cap64(all_imported(self.entries()).len()),
            r.total_imported_amount == cap128(amount_sum(all_imported(self.entries()))),
            r.pending_count == cap64(all_pending(self.entries()).len()),
            r.trusted_peer_observed_count == cap64(all_peer(self.entries()).len()),
            forall|i: int|
                0 <= i < r.by_domain_hi@.len() ==> row_tallies(
                    self.entries(),
                    #[trigger] r.by_domain_hi@[i],
                ),
            forall|i: int, j: int|
                0 <= i < j < r.by_domain_hi@.len() ==> (#[trigger] r.by_domain_hi@[i]).domain_hi
                    < (#[trigger] r.by_domain_hi@[j]).domain_hi,
            forall|i: int|
                0 <= i < r.by_domain_hi@.len() ==> exists|k: int|
                    0 <= k < self.entries().len() && ((#[trigger] self.entries()[k]).target_domain_hi
                        == (#[trigger] r.by_domain_hi@[i]).domain_hi || (self.entries()[k].status
                        == CrossShardStatus::Imported && self.entries()[k].source_domain_hi
                        == r.by_domain_hi@[i].domain_hi)),
            forall|k: int|
                0 <= k < self.entries().len() ==> exists|i: int|
                    0 <= i < r.by_domain_hi@.len() && (#[trigger] r.by_domain_hi@[i]).domain_hi
                        == (#[trigger] self.entries()[k]).target_domain_hi,
            forall|k: int|
                0 <= k < self.entries().len() && (#[trigger] self.entries()[k]).status
                    == CrossShardStatus::Imported ==> exists|i: int|
                    0 <= i < r.by_domain_hi@.len() && (#[trigger] r.by_domain_hi@[i]).domain_hi
                        == self.entries()[k].source_domain_hi,
    {
        proof {
            lemma_totals_tallies(self.entries());
            lemma_rows_upto(self.entries(), 256);
            assert forall|i: int|
                0 <= i < domain_rows_upto(self.entries(), 256).len() implies row_tallies(
                self.entries(),
                #[trigger] domain_rows_upto(self.entries(), 256)[i],
            ) by {
                let row = domain_rows_upto(self.entries(), 256)[i];
                lemma_domain_row_tallies(self.entries(), row.domain_hi);
            }
            let e0 = self.entries();
            let rs = domain_rows_upto(e0, 256);
            assert forall|k: int| 0 <= k < e0.len() implies exists|i: int|
                0 <= i < rs.len() && (#[trigger] rs[i]).domain_hi == (#[trigger] e0[k]).target_domain_hi by {
                let d = e0[k].target_domain_hi;
                assert(touches(e0[k], d));
                lemma_touched_iff(e0, d);
                assert(touched(e0, d));
            }

        }
        proof {
            use_type_invariant(self);
            lemma_ascending_distinct(self.entries());
            lemma_dom_len(self.entries());
            lemma_totals_counts(self.entries());
        }
        let ghost e = self.entries();
        let mut rows: Vec<CrossShardDomainSummary> = Vec::new();
        let mut seen: Vec<bool> = Vec::new();
        let mut d: usize = 0;
        while d < 256
            invariant
                d <= 256,
                rows@.len() == d,
                seen@.len() == d,
                forall|k: int| 0 <= k < d ==> #[trigger] rows@[k] == zero_row(),
                forall|k: int| 0 <= k < d ==> !#[trigger] seen@[k],
            decreases 256 - d,
        {
            rows.push(CrossShardDomainSummary::default());
            seen.push(false);
            d = d + 1;
        }
        let mut ec: u64 = 0;
        let mut ea: u128 = 0;
        let mut ic: u64 = 0;
        let mut ia: u128 = 0;
        let mut pc: u64 = 0;
        let mut peer: u64 = 0;
        let mut i: usize = 0;
        assert(e.take(0) =~= Seq::<CrossShardFact>::empty());
        while i < self.facts.len()
            invariant
                e == self.facts@,
                i <= e.len(),
                rows@.len() == 256,
                seen@.len() == 256,
                forall|k: int| 0 <= k < 256 ==> #[trigger] rows@[k] == dom_row(e.take(i as int), k as u8),
                forall|k: int| 0 <= k < 256 ==> #[trigger] seen@[k] == touched(e.take(i as int), k as u8),
                ec == totals(e.take(i as int)).exported_count,
                ea == totals(e.take(i as int)).exported_amount,
                ic == totals(e.take(i as int)).imported_count,
                ia == totals(e.take(i as int)).imported_amount,
                pc == totals(e.take(i as int)).pending_count,
                peer == totals(e.take(i as int)).peer_count,
            decreases e.len() - i,
        {
            let f = &self.facts[i];
            let ghost pre = e.take(i as int);
            let ghost post = e.take(i + 1);
            assert(post.drop_last() =~= pre);
            assert(post.last() == *f);
            let t = f.target_domain_hi;
            let sd = f.source_domain_hi;
            let ghost rows0 = rows@;
            let ghost seen0 = seen@;
            let rt = dom_apply(rows[t as usize], f, t);
            rows.set(t as usize, rt);
            seen.set(t as usize, true);
            let imported = f.status == CrossShardStatus::Imported;
            if imported && sd != t {
                let rs = dom_apply(rows[sd as usize], f, sd);
                rows.set(sd as usize, rs);
                seen.set(sd as usize, true);
            }
            assert forall|k: int| 0 <= k < 256 implies #[trigger] rows@[k] == dom_row(post, k as u8) by {
                assert(dom_row(post, k as u8) == dom_step(dom_row(pre, k as u8), *f, k as u8));
                if k != t as int && !(imported && k == sd as int) {
                    assert(rows@[k] == rows0[k]);
                }
            }
            assert forall|k: int| 0 <= k < 256 implies #[trigger] seen@[k] == touched(post, k as u8) by {
                assert(touched(post, k as u8) == (touched(pre, k as u8) || touches(*f, k as u8)));
                if k != t as int && !(imported && k == sd as int) {
                    assert(seen@[k] == seen0[k]);
                }
            }
            if f.origin == CrossShardOrigin::TrustedPeer {
                peer = peer.saturating_add(1);
            }
            ec = ec.saturating_add(1);
            ea = ea.saturating_add(f.amount);
            if imported {
                ic = ic.saturating_add(1);
                ia = ia.saturating_add(f.amount);
            } else {
                pc = pc.saturating_add(1);
            }
            i = i + 1;
        }
        assert(e.take(e.len() as int) =~= e);
        let mut by_domain: Vec<CrossShardDomainSummary> = Vec::new();
        let mut d: usize = 0;
        while d < 256
            invariant
                d <= 256,
                rows@.len() == 256,
                seen@.len() == 256,
                forall|k: int| 0 <= k < 256 ==> #[trigger] rows@[k] == dom_row(e, k as u8),
                forall|k: int| 0 <= k < 256 ==> #[trigger] seen@[k] == touched(e, k as u8),
                by_domain@ == domain_rows_upto(e, d as nat),
            decreases 256 - d,
        {
            if seen[d] {
                by_domain.push(rows[d]);
            }
            d = d + 1;
        }
        let res = CrossShardSummary {
            scope: "local_plus_trusted_peer_observations",
            total_exported_count: ec,
            total_exported_amount: ea,
            total_imported_count: ic,
            total_imported_amount: ia,
            pending_count: pc,
            trusted_peer_observed_count: peer,
            by_domain_hi: by_domain,
        };
        proof {
            assert(res.by_domain_hi@ == by_domain@);
            assert forall|i: int| 0 <= i < res.by_domain_hi@.len() implies exists|k: int|
                0 <= k < self.entries().len() && ((#[trigger] self.entries()[k]).target_domain_hi
                    == (#[trigger] res.by_domain_hi@[i]).domain_hi || (self.entries()[k].status
                    == CrossShardStatus::Imported && self.entries()[k].source_domain_hi
                    == res.by_domain_hi@[i].domain_hi)) by {
                let d = res.by_domain_hi@[i].domain_hi;
                lemma_touched_iff(e, d);
                let k = choose|k: int| 0 <= k < e.len() && #[trigger] touches(e[k], d);
                assert(touches(e[k], d));
            }
            assert forall|k: int|
                0 <= k < self.entries().len() && (#[trigger] self.entries()[k]).status
                    == CrossShardStatus::Imported implies exists|i: int|
                    0 <= i < res.by_domain_hi@.len() && (#[trigger] res.by_domain_hi@[i]).domain_hi
                        == self.entries()[k].source_domain_hi by {
                let d = e[k].source_domain_hi;
                assert(touches(e[k], d));
                lemma_touched_iff(e, d);
                assert(touched(e, d));
                let i = choose|i: int| 0 <= i < by_domain@.len() && (#[trigger] by_domain@[i]).domain_hi == d;
                assert(res.by_domain_hi@[i] == by_domain@[i]);
            }
        }
        res
    }
}

// ---------------------------------------------------------------------------
// Summary log line
// ---------------------------------------------------------------------------

/// `0x{domain:02X}:ex={count}/{amount} im={count}/{amount} pend={n} peer_obs={n}`.
pub open spec fn domain_entry(d: CrossShardDomainSummary) -> Seq<char> {
    "0x"@ + hex2_upper(d.domain_hi) + ":ex="@ + dec(d.exported_count as nat) + "/"@ + dec(
        d.exported_amount as nat,
    ) + " im="@ + dec(d.imported_count as nat) + "/"@ + dec(d.imported_amount as nat)
        + " pend="@ + dec(d.pending_count as nat) + " peer_obs="@ + dec(
        d.trusted_peer_observed_count as nat,
    )
}

/// Domain entries joined with `,`.
pub open spec fn join_entries(rows: Seq<CrossShardDomainSummary>) -> Seq<char>
    decreases rows.len(),
{
    if rows.len() == 0 {
        Seq::empty()
    } else if rows.len() == 1 {
        domain_entry(rows[0])
    } else {
        join_entries(rows.drop_last()) + ","@ + domain_entry(rows.last())
    }
}

/// The periodic summary log line.
pub open spec fn summary_line(s: CrossShardSummary) -> Seq<char> {
    "export/import summary: scope="@ + s.scope@ + " exported_count="@ + dec(
        s.total_exported_count as nat,
    ) + " exported_amount="@ + dec(s.total_exported_amount as nat) + " imported_count="@ + dec(
        s.total_imported_count as nat,
    ) + " imported_amount="@ + dec(s.total_imported_amount as nat) + " pending_count="@ + dec(
        s.pending_count as nat,
    ) + " trusted_peer_observed_count="@ + dec(s.trusted_peer_observed_count as nat)
        + " domains="@ + join_entries(s.by_domain_hi@)
}

fn push_domain_entry(out: &mut String, d: &CrossShardDomainSummary)
    ensures
        final(out)@ == old(out)@ + domain_entry(*d),
{
    proof {
        reveal_strlit("0x");
        reveal_strlit(":ex=");
        reveal_strlit("/");
        reveal_strlit(" im=");
        reveal_strlit(" pend=");
        reveal_strlit(" peer_obs=");
    }
    let ghost o = out@;
    out.append("0x");
    push_hex2_upper(out, d.domain_hi);
    out.append(":ex=");
    push_dec(out, d.exported_count);
    out.append("/");
    push_dec128(out, d.exported_amount);
    out.append(" im=");
    push_dec(out, d.imported_count);
    out.append("/");
    push_dec128(out, d.imported_amount);
    out.append(" pend=");
    push_dec(out, d.pending_count);
    out.append(" peer_obs=");
    push_dec(out, d.trusted_peer_observed_count);
    assert(out@ =~= o + domain_entry(*d));
}

/// Renders the summary as one log line.
pub fn summary_log_line(summary: &CrossShardSummary) -> (r: String)
    ensures
        r@ == summary_line(*summary),
{
    proof {
        reveal_strlit("export/import summary: scope=");
        reveal_strlit(" exported_count=");
        reveal_strlit(" exported_amount=");
        reveal_strlit(" imported_count=");
        reveal_strlit(" imported_amount=");
        reveal_strlit(" pending_count=");
        reveal_strlit(" trusted_peer_observed_count=");
        reveal_strlit(" domains=");
        reveal_strlit(",");
    }
    let mut out = String::from_str("export/import summary: scope=");
    out.append(summary.scope);
    out.append(" exported_count=");
    push_dec(&mut out, summary.total_exported_count);
    out.append(" exported_amount=");
    push_dec128(&mut out, summary.total_exported_amount);
    out.append(" imported_count=");
    push_dec(&mut out, summary.total_imported_count);
    out.append(" imported_amount=");
    push_dec128(&mut out, summary.total_imported_amount);
    out.append(" pending_count=");
    push_dec(&mut out, summary.pending_count);
    out.append(" trusted_peer_observed_count=");
    push_dec(&mut out, summary.trusted_peer_observed_count);
    out.append(" domains=");
    let ghost head = out@;
    let rows = &summary.by_domain_hi;
    let mut i: usize = 0;
    assert(rows@.take(0) =~= Seq::<CrossShardDomainSummary>::empty());
    while i < rows.len()
        invariant
            i <= rows@.len(),
            out@ == head + join_entries(rows@.take(i as int)),
        decreases rows@.len() - i,
    {
        let ghost before = out@;
        if i > 0 {
            out.append(",");
        }
        push_domain_entry(&mut out, &rows[i]);
        assert(rows@.take(i + 1).drop_last() =~= rows@.take(i as int));
        assert(rows@.take(i + 1).last() == rows@[i as int]);
        if i == 0 {
            assert(rows@.take(1) =~= seq![rows@[0]]);
        }
        assert(out@ =~= head + join_entries(rows@.take(i + 1)));
        i = i + 1;
    }
    assert(rows@.take(rows@.len() as int) =~= rows@);
    assert(out@ =~= summary_line(*summary));
    out
}

} // verus!
