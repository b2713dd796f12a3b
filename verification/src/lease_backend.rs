//! Lease records, compare-and-swap lease transitions, the backend trait and
//! the in-process lease store.
//!
//! The CAS transitions (`cas_acquire`, `cas_renew`, `cas_release`,
//! `cas_takeover`) decide, from the record currently stored for a validator
//! identity, what a request returns and what is written back. Every backend
//! (the in-process store here, a file store under an exclusive lock) applies
//! exactly these transitions.

use crate::text::str_eq;
use vstd::prelude::*;
use vstd::string::*;

verus! {

/// Which storage a lease backend uses.
#[derive(Clone, Copy, Debug, PartialEq, Eq, Structural)]
pub enum LeaseBackendMode {
    File,
    ProcessLocal,
}

/// The persisted lease for one validator identity.
#[derive(Clone, Debug, PartialEq, Eq)]
pub struct LeaseRec {
    pub owner_id: String,
    pub validator_identity_hash: String,
    pub term: u64,
    pub fence: u64,
    pub expiry: u64,
    pub last_tip: u64,
    pub updated_at: u64,
}

/// Mathematical view of a [`LeaseRec`].
pub struct LeaseRecView {
    pub owner_id: Seq<char>,
    pub vh: Seq<char>,
    pub term: u64,
    pub fence: u64,
    pub expiry: u64,
    pub last_tip: u64,
    pub updated_at: u64,
}

impl View for LeaseRec {
    type V = LeaseRecView;

    open spec fn view(&self) -> LeaseRecView {
        LeaseRecView {
            owner_id: self.owner_id@,
            vh: self.validator_identity_hash@,
            term: self.term,
            fence: self.fence,
            expiry: self.expiry,
            last_tip: self.last_tip,
            updated_at: self.updated_at,
        }
    }
}

impl LeaseRec {
    /// Field-by-field copy whose view equals the original's.
    pub fn duplicate(&self) -> (r: LeaseRec)
        ensures
            r@ == self@,
    {
        LeaseRec {
            owner_id: self.owner_id.clone(),
            validator_identity_hash: self.validator_identity_hash.clone(),
            term: self.term,
            fence: self.fence,
            expiry: self.expiry,
            last_tip: self.last_tip,
            updated_at: self.updated_at,
        }
    }
}

pub open spec fn opt_rec_view(o: Option<LeaseRec>) -> Option<LeaseRecView> {
    match o {
        Some(r) => Some(r@),
        None => None,
    }
}

/// `a.saturating_add(b)` on `u64`.
pub open spec fn sat_add(a: u64, b: u64) -> u64 {
    if a + b > u64::MAX {
        u64::MAX
    } else {
        (a + b) as u64
    }
}

/// Request to acquire a free lease.
#[derive(Clone, Copy, Debug)]
pub struct LeaseGrant<'a> {
    pub vh: &'a str,
    pub owner: &'a str,
    pub now_ms: u64,
    pub tip_h: u64,
    pub ttl_ms: u64,
}

/// Request to extend a lease this owner holds, guarded by term and fence.
#[derive(Clone, Copy, Debug)]
pub struct LeaseKeep<'a> {
    pub vh: &'a str,
    pub owner: &'a str,
    pub exp_term: u64,
    pub exp_fence: u64,
    pub now_ms: u64,
    pub tip_h: u64,
    pub ttl_ms: u64,
}

/// Request to take over an expired lease, guarded by term, fence and expiry.
#[derive(Clone, Copy, Debug)]
pub struct LeaseTake<'a> {
    pub vh: &'a str,
    pub owner: &'a str,
    pub exp_term: u64,
    pub exp_fence: u64,
    pub exp_expiry: u64,
    pub now_ms: u64,
    pub tip_h: u64,
    pub ttl_ms: u64,
}

/// Request to give up a lease, guarded by owner, term and fence.
#[derive(Clone, Copy, Debug)]
pub struct LeaseDrop<'a> {
    pub vh: &'a str,
    pub owner: &'a str,
    pub exp_term: u64,
    pub exp_fence: u64,
}

#[derive(Clone, Debug)]
pub enum AcquireRes {
    Acquired(LeaseRec),
    Held(LeaseRec),
}

#[derive(Clone, Debug)]
pub enum RenewRes {
    Renewed(LeaseRec),
    Lost(Option<LeaseRec>),
}

#[derive(Clone, Debug)]
pub enum TakeRes {
    Taken(LeaseRec),
    CasMiss(LeaseRec),
    Missing,
}

#[derive(Clone, Copy, Debug, PartialEq, Eq, Structural)]
pub enum ReleaseRes {
    Released,
    NotOwner,
}

/// A fresh record: expiry `now + ttl` (saturating), tip and update time as given.
pub open spec fn new_rec(
    vh: Seq<char>,
    owner: Seq<char>,
    now_ms: u64,
    tip_h: u64,
    ttl_ms: u64,
    term: u64,
    fence: u64,
) -> LeaseRecView {
    LeaseRecView {
        owner_id: owner,
        vh,
        term,
        fence,
        expiry: sat_add(now_ms, ttl_ms),
        last_tip: tip_h,
        updated_at: now_ms,
    }
}

fn mk_rec(vh: &str, owner: &str, now_ms: u64, tip_h: u64, ttl_ms: u64, term: u64, fence: u64) -> (r:
    LeaseRec)
    ensures
        r@ == new_rec(vh@, owner@, now_ms, tip_h, ttl_ms, term, fence),
{
    LeaseRec {
        owner_id: String::from_str(owner),
        validator_identity_hash: String::from_str(vh),
        term,
        fence,
        expiry: now_ms.saturating_add(ttl_ms),
        last_tip: tip_h,
        updated_at: now_ms,
    }
}

// ---------------------------------------------------------------------------
// CAS transitions on the currently stored record
// ---------------------------------------------------------------------------

/// Renew refuses when another owner, another term or fence, or an expired lease is stored.
pub open spec fn renew_mismatch(
    cur: LeaseRecView,
    owner: Seq<char>,
    exp_term: u64,
    exp_fence: u64,
    now_ms: u64,
) -> bool {
    cur.owner_id != owner || cur.term != exp_term || cur.fence != exp_fence || now_ms > cur.expiry
}

/// Takeover refuses unless term, fence and expiry are exactly the observed ones.
pub open spec fn take_mismatch(cur: LeaseRecView, exp_term: u64, exp_fence: u64, exp_expiry: u64) -> bool {
    cur.term != exp_term || cur.fence != exp_fence || cur.expiry != exp_expiry
}

/// The record a successful renew stores: same owner, term and fence, new expiry and tip.
pub open spec fn renewed_rec(cur: LeaseRecView, now_ms: u64, tip_h: u64, ttl_ms: u64) -> LeaseRecView {
    LeaseRecView { expiry: sat_add(now_ms, ttl_ms), last_tip: tip_h, updated_at: now_ms, ..cur }
}

pub open spec fn acquire_post(
    cur: Option<LeaseRecView>,
    req: LeaseGrant,
    res: AcquireRes,
    write: Option<LeaseRecView>,
) -> bool {
    match cur {
        None => {
            &&& res matches AcquireRes::Acquired(rec) && rec@ == new_rec(
                req.vh@,
                req.owner@,
                req.now_ms,
                req.tip_h,
                req.ttl_ms,
                1,
                1,
            )
            &&& write == Some(new_rec(req.vh@, req.owner@, req.now_ms, req.tip_h, req.ttl_ms, 1, 1))
        },
        Some(c) => res matches AcquireRes::Held(rec) && rec@ == c && write is None,
    }
}

pub open spec fn renew_post(
    cur: Option<LeaseRecView>,
    req: LeaseKeep,
    res: RenewRes,
    write: Option<LeaseRecView>,
) -> bool {
    match cur {
        None => res matches RenewRes::Lost(o) && o is None && write is None,
        Some(c) => if renew_mismatch(c, req.owner@, req.exp_term, req.exp_fence, req.now_ms) {
            res matches RenewRes::Lost(o) && o matches Some(r) && r@ == c && write is None
        } else {
            &&& res matches RenewRes::Renewed(rec) && rec@ == renewed_rec(
                c,
                req.now_ms,
                req.tip_h,
                req.ttl_ms,
            )
            &&& write == Some(renewed_rec(c, req.now_ms, req.tip_h, req.ttl_ms))
        },
    }
}

/// `delete` tells whether the stored record is removed.
pub open spec fn release_post(
    cur: Option<LeaseRecView>,
    req: LeaseDrop,
    res: ReleaseRes,
    delete: bool,
) -> bool {
    match cur {
        None => res == ReleaseRes::NotOwner && !delete,
        Some(c) => if c.owner_id != req.owner@ || c.term != req.exp_term || c.fence
            != req.exp_fence {
            res == ReleaseRes::NotOwner && !delete
        } else {
            res == ReleaseRes::Released && delete
        },
    }
}

/// The record a successful takeover stores: the new owner, term and fence one past the old.
pub open spec fn taken_rec(cur: LeaseRecView, req: LeaseTake) -> LeaseRecView {
    new_rec(
        req.vh@,
        req.owner@,
        req.now_ms,
        req.tip_h,
        req.ttl_ms,
        sat_add(cur.term, 1),
        sat_add(cur.fence, 1),
    )
}

pub open spec fn takeover_post(
    cur: Option<LeaseRecView>,
    req: LeaseTake,
    res: TakeRes,
    write: Option<LeaseRecView>,
) -> bool {
    match cur {
        None => res is Missing && write is None,
        Some(c) => if take_mismatch(c, req.exp_term, req.exp_fence, req.exp_expiry) {
            res matches TakeRes::CasMiss(r) && r@ == c && write is None
        } else {
            &&& res matches TakeRes::Taken(rec) && rec@ == taken_rec(c, req)
            &&& write == Some(taken_rec(c, req))
        },
    }
}

/// Acquire on the stored record: a free slot is granted with term 1 and fence 1.
pub fn cas_acquire(cur: Option<&LeaseRec>, req: &LeaseGrant) -> (r: (AcquireRes, Option<LeaseRec>))
    ensures
        acquire_post(
            match cur {
                Some(c) => Some(c@),
                None => None,
            },
            *req,
            r.0,
            opt_rec_view(r.1),
        ),
{
    match cur {
        None => {
            let rec = mk_rec(req.vh, req.owner, req.now_ms, req.tip_h, req.ttl_ms, 1, 1);
            let w = rec.duplicate();
            (AcquireRes::Acquired(rec), Some(w))
        },
        Some(c) => (AcquireRes::Held(c.duplicate()), None),
    }
}

/// Renew on the stored record.
pub fn cas_renew(cur: Option<&LeaseRec>, req: &LeaseKeep) -> (r: (RenewRes, Option<LeaseRec>))
    ensures
        renew_post(
            match cur {
                Some(c) => Some(c@),
                None => None,
            },
            *req,
            r.0,
            opt_rec_view(r.1),
        ),
{
    match cur {
        None => (RenewRes::Lost(None), None),
        Some(c) => {
            if !str_eq(c.owner_id.as_str(), req.owner) || c.term != req.exp_term || c.fence
                != req.exp_fence || req.now_ms > c.expiry {
                (RenewRes::Lost(Some(c.duplicate())), None)
            } else {
                let mut next = c.duplicate();
                next.expiry = req.now_ms.saturating_add(req.ttl_ms);
                next.last_tip = req.tip_h;
                next.updated_at = req.now_ms;
                let w = next.duplicate();
                (RenewRes::Renewed(next), Some(w))
            }
        },
    }
}

/// Release on the stored record; the boolean tells whether to delete it.
pub fn cas_release(cur: Option<&LeaseRec>, req: &LeaseDrop) -> (r: (ReleaseRes, bool))
    ensures
        release_post(
            match cur {
                Some(c) => Some(c@),
                None => None,
            },
            *req,
            r.0,
            r.1,
        ),
{
    match cur {
        None => (ReleaseRes::NotOwner, false),
        Some(c) => {
            if !str_eq(c.owner_id.as_str(), req.owner) || c.term != req.exp_term || c.fence
                != req.exp_fence {
                (ReleaseRes::NotOwner, false)
            } else {
                (ReleaseRes::Released, true)
            }
        },
    }
}

/// Takeover on the stored record.
pub fn cas_takeover(cur: Option<&LeaseRec>, req: &LeaseTake) -> (r: (TakeRes, Option<LeaseRec>))
    ensures
        takeover_post(
            match cur {
                Some(c) => Some(c@),
                None => None,
            },
            *req,
            r.0,
            opt_rec_view(r.1),
        ),
{
    match cur {
        None => (TakeRes::Missing, None),
        Some(c) => {
            if c.term != req.exp_term || c.fence != req.exp_fence || c.expiry != req.exp_expiry {
                (TakeRes::CasMiss(c.duplicate()), None)
            } else {
                let rec = mk_rec(
                    req.vh,
                    req.owner,
                    req.now_ms,
                    req.tip_h,
                    req.ttl_ms,
                    c.term.saturating_add(1),
                    c.fence.saturating_add(1),
                );
                let w = rec.duplicate();
                (TakeRes::Taken(rec), Some(w))
            }
        },
    }
}

/// Once a takeover commits, a renew or a release still guarded by the fence
/// of the lease it replaced fails and writes nothing.
pub proof fn lemma_takeover_fences_out_previous(
    cur: LeaseRecView,
    take: LeaseTake,
    taken: TakeRes,
    stored: Option<LeaseRecView>,
    keep: LeaseKeep,
    renewed: RenewRes,
    rewrite: Option<LeaseRecView>,
    drop_req: LeaseDrop,
    released: ReleaseRes,
    delete: bool,
)
    requires
        takeover_post(Some(cur), take, taken, stored),
        taken is Taken,
        cur.fence < u64::MAX,
        keep.exp_fence == cur.fence,
        renew_post(stored, keep, renewed, rewrite),
        drop_req.exp_fence == cur.fence,
        release_post(stored, drop_req, released, delete),
    ensures
        renewed is Lost,
        rewrite is None,
        released == ReleaseRes::NotOwner,
        !delete,
{
}

// ---------------------------------------------------------------------------
// What every backend answer guarantees about the request it answers
// ---------------------------------------------------------------------------

pub open spec fn acquire_fact(
    vh: Seq<char>,
    owner: Seq<char>,
    now_ms: u64,
    tip_h: u64,
    ttl_ms: u64,
    r: Result<AcquireRes, String>,
) -> bool {
    match r {
        Ok(AcquireRes::Acquired(rec)) => rec@ == new_rec(vh, owner, now_ms, tip_h, ttl_ms, 1, 1),
        Ok(AcquireRes::Held(rec)) => rec@.vh == vh,
        Err(_) => true,
    }
}

pub open spec fn renew_fact(
    vh: Seq<char>,
    owner: Seq<char>,
    exp_term: u64,
    exp_fence: u64,
    now_ms: u64,
    tip_h: u64,
    ttl_ms: u64,
    r: Result<RenewRes, String>,
) -> bool {
    match r {
        Ok(RenewRes::Renewed(rec)) => {
            &&& rec@.owner_id == owner
            &&& rec@.vh == vh
            &&& rec@.term == exp_term
            &&& rec@.fence == exp_fence
            &&& rec@.expiry == sat_add(now_ms, ttl_ms)
            &&& rec@.last_tip == tip_h
            &&& rec@.updated_at == now_ms
        },
        Ok(RenewRes::Lost(Some(cur))) => cur@.vh == vh && renew_mismatch(
            cur@,
            owner,
            exp_term,
            exp_fence,
            now_ms,
        ),
        _ => true,
    }
}

pub open spec fn take_fact(
    vh: Seq<char>,
    owner: Seq<char>,
    exp_term: u64,
    exp_fence: u64,
    exp_expiry: u64,
    now_ms: u64,
    tip_h: u64,
    ttl_ms: u64,
    r: Result<TakeRes, String>,
) -> bool {
    match r {
        Ok(TakeRes::Taken(rec)) => rec@ == new_rec(
            vh,
            owner,
            now_ms,
            tip_h,
            ttl_ms,
            sat_add(exp_term, 1),
            sat_add(exp_fence, 1),
        ),
        Ok(TakeRes::CasMiss(cur)) => cur@.vh == vh && take_mismatch(
            cur@,
            exp_term,
            exp_fence,
            exp_expiry,
        ),
        _ => true,
    }
}

/// One request a lease store answered, with its answer.
pub enum LeaseCall {
    Acquire {
        vh: Seq<char>,
        owner: Seq<char>,
        now_ms: u64,
        tip_h: u64,
        ttl_ms: u64,
        answer: Result<AcquireRes, String>,
    },
    Renew {
        vh: Seq<char>,
        owner: Seq<char>,
        exp_term: u64,
        exp_fence: u64,
        now_ms: u64,
        tip_h: u64,
        ttl_ms: u64,
        answer: Result<RenewRes, String>,
    },
    Release {
        vh: Seq<char>,
        owner: Seq<char>,
        exp_term: u64,
        exp_fence: u64,
        answer: Result<ReleaseRes, String>,
    },
    Take {
        vh: Seq<char>,
        owner: Seq<char>,
        exp_term: u64,
        exp_fence: u64,
        exp_expiry: u64,
        now_ms: u64,
        tip_h: u64,
        ttl_ms: u64,
        answer: Result<TakeRes, String>,
    },
}

/// Identity a request names.
pub open spec fn call_vh(c: LeaseCall) -> Seq<char> {
    match c {
        LeaseCall::Acquire { vh, .. } => vh,
        LeaseCall::Renew { vh, .. } => vh,
        LeaseCall::Release { vh, .. } => vh,
        LeaseCall::Take { vh, .. } => vh,
    }
}

/// The record a map of stored records holds for `vh`.
pub open spec fn held_in(store: Map<Seq<char>, LeaseRecView>, vh: Seq<char>) -> Option<LeaseRecView> {
    if store.contains_key(vh) {
        Some(store[vh])
    } else {
        None
    }
}

/// The answer to `c` is the compare-and-swap answer on `cur`, the record
/// stored for its identity when it came.
pub open spec fn answered_from(cur: Option<LeaseRecView>, c: LeaseCall) -> bool {
    match c {
        LeaseCall::Acquire { vh, owner, now_ms, tip_h, ttl_ms, answer } => match cur {
            None => answer matches Ok(AcquireRes::Acquired(r)) && r@ == new_rec(
                vh,
                owner,
                now_ms,
                tip_h,
                ttl_ms,
                1,
                1,
            ),
            Some(x) => answer matches Ok(AcquireRes::Held(r)) && r@ == x,
        },
        LeaseCall::Renew { vh, owner, exp_term, exp_fence, now_ms, tip_h, ttl_ms, answer } =>
            match cur {
            None => answer matches Ok(RenewRes::Lost(o)) && o is None,
            Some(x) => if renew_mismatch(x, owner, exp_term, exp_fence, now_ms) {
                answer matches Ok(RenewRes::Lost(o)) && o matches Some(r) && r@ == x
            } else {
                answer matches Ok(RenewRes::Renewed(r)) && r@ == renewed_rec(x, now_ms, tip_h, ttl_ms)
            },
        },
        LeaseCall::Release { vh, owner, exp_term, exp_fence, answer } => match cur {
            None => answer == Ok::<ReleaseRes, String>(ReleaseRes::NotOwner),
            Some(x) => if x.owner_id != owner || x.term != exp_term || x.fence != exp_fence {
                answer == Ok::<ReleaseRes, String>(ReleaseRes::NotOwner)
            } else {
                answer == Ok::<ReleaseRes, String>(ReleaseRes::Released)
            },
        },
        LeaseCall::Take {
            vh,
            owner,
            exp_term,
            exp_fence,
            exp_expiry,
            now_ms,
            tip_h,
            ttl_ms,
            answer,
        } => match cur {
            None => answer matches Ok(TakeRes::Missing),
            Some(x) => if take_mismatch(x, exp_term, exp_fence, exp_expiry) {
                answer matches Ok(TakeRes::CasMiss(r)) && r@ == x
            } else {
                answer matches Ok(TakeRes::Taken(r)) && r@ == new_rec(
                    vh,
                    owner,
                    now_ms,
                    tip_h,
                    ttl_ms,
                    sat_add(x.term, 1),
                    sat_add(x.fence, 1),
                )
            },
        },
    }
}

/// The record stored for the identity of `c` after it, from `cur` before it.
pub open spec fn stored_after_call(cur: Option<LeaseRecView>, c: LeaseCall) -> Option<LeaseRecView> {
    match c {
        LeaseCall::Acquire { vh, owner, now_ms, tip_h, ttl_ms, .. } => match cur {
            None => Some(new_rec(vh, owner, now_ms, tip_h, ttl_ms, 1, 1)),
            Some(x) => Some(x),
        },
        LeaseCall::Renew { owner, exp_term, exp_fence, now_ms, tip_h, ttl_ms, .. } => match cur {
            None => None,
            Some(x) => if renew_mismatch(x, owner, exp_term, exp_fence, now_ms) {
                Some(x)
            } else {
                Some(renewed_rec(x, now_ms, tip_h, ttl_ms))
            },
        },
        LeaseCall::Release { owner, exp_term, exp_fence, .. } => match cur {
            None => None,
            Some(x) => if x.owner_id != owner || x.term != exp_term || x.fence != exp_fence {
                Some(x)
            } else {
                None
            },
        },
        LeaseCall::Take { vh, owner, exp_term, exp_fence, exp_expiry, now_ms, tip_h, ttl_ms, .. } =>
            match cur {
            None => None,
            Some(x) => if take_mismatch(x, exp_term, exp_fence, exp_expiry) {
                Some(x)
            } else {
                Some(
                    new_rec(vh, owner, now_ms, tip_h, ttl_ms, sat_add(x.term, 1), sat_add(x.fence, 1)),
                )
            },
        },
    }
}

/// Stored records after request `c`.
pub open spec fn store_step(store: Map<Seq<char>, LeaseRecView>, c: LeaseCall) -> Map<
    Seq<char>,
    LeaseRecView,
> {
    match stored_after_call(held_in(store, call_vh(c)), c) {
        Some(r) => store.insert(call_vh(c), r),
        None => store.remove(call_vh(c)),
    }
}

/// Stored records after the requests `calls`, from an empty store.
pub open spec fn replay(calls: Seq<LeaseCall>) -> Map<Seq<char>, LeaseRecView>
    decreases calls.len(),
{
    if calls.len() == 0 {
        Map::empty()
    } else {
        store_step(replay(calls.drop_last()), calls.last())
    }
}

/// Each request in `calls` was answered from the records its predecessors
/// left, starting from an empty store.
pub open spec fn replay_fits(calls: Seq<LeaseCall>) -> bool
    decreases calls.len(),
{
    calls.len() == 0 || (replay_fits(calls.drop_last()) && answered_from(
        held_in(replay(calls.drop_last()), call_vh(calls.last())),
        calls.last(),
    ))
}

proof fn lemma_replay_push(calls: Seq<LeaseCall>, c: LeaseCall)
    ensures
        replay(calls.push(c)) == store_step(replay(calls), c),
        replay_fits(calls.push(c)) == (replay_fits(calls) && answered_from(
            held_in(replay(calls), call_vh(c)),
            c,
        )),
{
    assert(calls.push(c).drop_last() =~= calls);
}

/// In a history that replays from an empty store, each request was
/// answered from the records the requests before it left, and the records
/// after it are those its predecessors and it leave.
pub proof fn lemma_history_answers(h: Seq<LeaseCall>, i: int)
    requires
        replay_fits(h),
        0 <= i < h.len(),
    ensures
        answered_from(held_in(replay(h.take(i)), call_vh(h[i])), h[i]),
        replay(h.take(i + 1)) == store_step(replay(h.take(i)), h[i]),
    decreases h.len(),
{
    lemma_replay_push(h.take(i), h[i]);
    assert(h.take(i).push(h[i]) =~= h.take(i + 1));
    if i == h.len() - 1 {
        assert(h.take(i) =~= h.drop_last());
    } else {
        let d = h.drop_last();
        lemma_history_answers(d, i);
        assert(d.take(i) =~= h.take(i));
        assert(d[i] == h[i]);
    }
}

/// Lease storage with compare-and-swap semantics.
///
/// Implementations answer each request from the record stored for `vh` at the
/// time of the call, applying the CAS transitions above. Errors report storage
/// failures (I/O, corruption) and leave the outcome unknown to the caller.
/// [`LeaseBackend::calls`] is the history of the requests a store answered,
/// each with its answer; every request appends one entry. A store of this
/// crate defines its history and is proved to keep it. A store written
/// outside this crate is not verified: it inherits the default empty
/// history, which no request can extend, and an always-true
/// [`LeaseBackend::consistent`], so the history clauses are claims that
/// only a verified store meets.
pub trait LeaseBackend {
    /// The requests this store answered, each with its answer, oldest first.
    closed spec fn calls(&self) -> Seq<LeaseCall> {
        Seq::empty()
    }

    /// Whether the stored records agree with the history; every request
    /// keeps it.
    closed spec fn consistent(&self) -> bool {
        true
    }

    fn mode(&self) -> LeaseBackendMode;

    /// Location of the lease files, for backends that keep them on disk.
    fn lease_path(&self) -> Option<String>;

    fn acquire(&mut self, req: LeaseGrant) -> (r: Result<AcquireRes, String>)
        ensures
            acquire_fact(req.vh@, req.owner@, req.now_ms, req.tip_h, req.ttl_ms, r),
            final(self).calls() == old(self).calls().push(
                LeaseCall::Acquire {
                    vh: req.vh@,
                    owner: req.owner@,
                    now_ms: req.now_ms,
                    tip_h: req.tip_h,
                    ttl_ms: req.ttl_ms,
                    answer: r,
                },
            ),
            old(self).consistent() ==> final(self).consistent(),
    ;

    fn renew(&mut self, req: LeaseKeep) -> (r: Result<RenewRes, String>)
        ensures
            renew_fact(
                req.vh@,
                req.owner@,
                req.exp_term,
                req.exp_fence,
                req.now_ms,
                req.tip_h,
                req.ttl_ms,
                r,
            ),
            final(self).calls() == old(self).calls().push(
                LeaseCall::Renew {
                    vh: req.vh@,
                    owner: req.owner@,
                    exp_term: req.exp_term,
                    exp_fence: req.exp_fence,
                    now_ms: req.now_ms,
                    tip_h: req.tip_h,
                    ttl_ms: req.ttl_ms,
                    answer: r,
                },
            ),
            old(self).consistent() ==> final(self).consistent(),
    ;

    fn release(&mut self, req: LeaseDrop) -> (r: Result<ReleaseRes, String>)
        ensures
            final(self).calls() == old(self).calls().push(
                LeaseCall::Release {
                    vh: req.vh@,
                    owner: req.owner@,
                    exp_term: req.exp_term,
                    exp_fence: req.exp_fence,
                    answer: r,
                },
            ),
            old(self).consistent() ==> final(self).consistent(),
    ;

    fn takeover(&mut self, req: LeaseTake) -> (r: Result<TakeRes, String>)
        ensures
            take_fact(
                req.vh@,
                req.owner@,
                req.exp_term,
                req.exp_fence,
                req.exp_expiry,
                req.now_ms,
                req.tip_h,
                req.ttl_ms,
                r,
            ),
            final(self).calls() == old(self).calls().push(
                LeaseCall::Take {
                    vh: req.vh@,
                    owner: req.owner@,
                    exp_term: req.exp_term,
                    exp_fence: req.exp_fence,
                    exp_expiry: req.exp_expiry,
                    now_ms: req.now_ms,
                    tip_h: req.tip_h,
                    ttl_ms: req.ttl_ms,
                    answer: r,
                },
            ),
            old(self).consistent() ==> final(self).consistent(),
    ;
}

// ---------------------------------------------------------------------------
// In-process lease store
// ---------------------------------------------------------------------------

/// Record stored for `vh` in a list of records with distinct identities.
pub open spec fn stored_for(recs: Seq<LeaseRecView>, vh: Seq<char>) -> Option<LeaseRecView> {
    if exists|i: int| 0 <= i < recs.len() && (#[trigger] recs[i]).vh == vh {
        Some(recs[choose|i: int| 0 <= i < recs.len() && (#[trigger] recs[i]).vh == vh])
    } else {
        None
    }
}

pub open spec fn distinct_ids(recs: Seq<LeaseRecView>) -> bool {
    forall|i: int, j: int|
        0 <= i < recs.len() && 0 <= j < recs.len() && i != j ==> (#[trigger] recs[i]).vh != (
        #[trigger] recs[j]).vh
}

proof fn lemma_stored_at(recs: Seq<LeaseRecView>, i: int)
    requires
        distinct_ids(recs),
        0 <= i < recs.len(),
    ensures
        stored_for(recs, recs[i].vh) == Some(recs[i]),
{
    let vh = recs[i].vh;
    assert(exists|k: int| 0 <= k < recs.len() && (#[trigger] recs[k]).vh == vh);
    let c = choose|k: int| 0 <= k < recs.len() && (#[trigger] recs[k]).vh == vh;
    assert(c == i);
}

pub open spec fn recs_view(v: Seq<LeaseRec>) -> Seq<LeaseRecView> {
    v.map_values(|r: LeaseRec| r@)
}

fn store_find(recs: &Vec<LeaseRec>, vh: &str) -> (r: Option<usize>)
    requires
        distinct_ids(recs_view(recs@)),
    ensures
        match r {
            Some(i) => i < recs@.len() && recs_view(recs@)[i as int].vh == vh@ && stored_for(
                recs_view(recs@),
                vh@,
            ) == Some(recs_view(recs@)[i as int]),
            None => stored_for(recs_view(recs@), vh@) is None,
        },
{
    let ghost rv = recs_view(recs@);
    let mut i: usize = 0;
    while i < recs.len()
        invariant
            i <= recs@.len(),
            rv == recs_view(recs@),
            distinct_ids(rv),
            forall|k: int| 0 <= k < i ==> (#[trigger] rv[k]).vh != vh@,
        decreases recs@.len() - i,
    {
        if str_eq(recs[i].validator_identity_hash.as_str(), vh) {
            proof {
                lemma_stored_at(rv, i as int);
            }
            return Some(i);
        }
        i = i + 1;
    }
    assert(!exists|k: int| 0 <= k < rv.len() && (#[trigger] rv[k]).vh == vh@);
    None
}

fn store_put(recs: &mut Vec<LeaseRec>, rec: LeaseRec)
    requires
        distinct_ids(recs_view(old(recs)@)),
    ensures
        distinct_ids(recs_view(final(recs)@)),
        forall|k: Seq<char>|
            #[trigger] stored_for(recs_view(final(recs)@), k) == if k == rec@.vh {
                Some(rec@)
            } else {
                stored_for(recs_view(old(recs)@), k)
            },
{
    let ghost old_recs = recs_view(recs@);
    let ghost vh = rec@.vh;
    let idx = store_find(recs, rec.validator_identity_hash.as_str());
    match idx {
        Some(i) => {
            let ghost rv = rec@;
            recs.set(i, rec);
            let ghost nr = recs_view(recs@);
            assert(nr =~= old_recs.update(i as int, rv));
            assert(distinct_ids(nr)) by {
                assert forall|a: int, b: int|
                    0 <= a < nr.len() && 0 <= b < nr.len() && a != b implies (#[trigger] nr[a]).vh
                    != (#[trigger] nr[b]).vh by {
                    if a != i as int {
                        assert(nr[a] == old_recs[a]);
                    }
                    if b != i as int {
                        assert(nr[b] == old_recs[b]);
                    }
                }
            }
            assert forall|k: Seq<char>| #[trigger] stored_for(nr, k) == if k == vh {
                Some(rv)
            } else {
                stored_for(old_recs, k)
            } by {
                if k == vh {
                    lemma_stored_at(nr, i as int);
                } else {
                    lemma_stored_update_other(old_recs, i as int, rv, k);
                }
            }
        },
        None => {
            let ghost rv = rec@;
            recs.push(rec);
            let ghost nr = recs_view(recs@);
            assert(nr =~= old_recs.push(rv));
            assert(distinct_ids(nr)) by {
                assert forall|a: int, b: int|
                    0 <= a < nr.len() && 0 <= b < nr.len() && a != b implies (#[trigger] nr[a]).vh
                    != (#[trigger] nr[b]).vh by {
                    if a < old_recs.len() && b < old_recs.len() {
                        assert(nr[a] == old_recs[a]);
                        assert(nr[b] == old_recs[b]);
                    } else if a < old_recs.len() {
                        assert(nr[a] == old_recs[a]);
                        assert(old_recs[a].vh != vh);
                    } else {
                        assert(nr[b] == old_recs[b]);
                        assert(old_recs[b].vh != vh);
                    }
                }
            }
            assert forall|k: Seq<char>| #[trigger] stored_for(nr, k) == if k == vh {
                Some(rv)
            } else {
                stored_for(old_recs, k)
            } by {
                if k == vh {
                    lemma_stored_at(nr, old_recs.len() as int);
                } else {
                    lemma_stored_push_other(old_recs, rv, k);
                }
            }
        },
    }
}

fn store_delete(recs: &mut Vec<LeaseRec>, vh: &str)
    requires
        distinct_ids(recs_view(old(recs)@)),
    ensures
        distinct_ids(recs_view(final(recs)@)),
        forall|k: Seq<char>|
            #[trigger] stored_for(recs_view(final(recs)@), k) == if k == vh@ {
                None
            } else {
                stored_for(recs_view(old(recs)@), k)
            },
{
    let ghost old_recs = recs_view(recs@);
    let idx = store_find(recs, vh);
    match idx {
        Some(i) => {
            recs.remove(i);
            let ghost nr = recs_view(recs@);
            assert(nr =~= old_recs.remove(i as int));
            assert forall|k: Seq<char>| #[trigger] stored_for(nr, k) == if k == vh@ {
                None
            } else {
                stored_for(old_recs, k)
            } by {
                lemma_stored_remove(old_recs, i as int, k);
            }
            proof {
                lemma_stored_remove(old_recs, i as int, vh@);
            }
        },
        None => {},
    }
}

/// Lease store kept in memory, one record per validator identity. Each
/// value is a store of its own: nodes that contend for a lease within one
/// process must share one value.
pub struct ProcessLocalLeaseBackend {
    recs: Vec<LeaseRec>,
    log: Ghost<Seq<LeaseCall>>,
}

impl ProcessLocalLeaseBackend {
    /// At most one record per validator identity.
    #[verifier::type_invariant]
    closed spec fn wf(self) -> bool {
        distinct_ids(recs_view(self.recs@))
    }

    /// The requests this store answered, with their answers.
    pub closed spec fn history(&self) -> Seq<LeaseCall> {
        self.log@
    }

    /// The record stored for `vh`, if any.
    pub closed spec fn lease_of(&self, vh: Seq<char>) -> Option<LeaseRecView> {
        stored_for(recs_view(self.recs@), vh)
    }

    /// Every answer in the history came from the records its predecessors
    /// left, and the records now are those the history leaves.
    pub open spec fn follows_history(&self) -> bool {
        &&& replay_fits(self.history())
        &&& forall|k: Seq<char>| #[trigger] self.lease_of(k) == held_in(replay(self.history()), k)
    }

    /// An empty store.
    pub fn new() -> (r: Self)
        ensures
            forall|vh: Seq<char>| #[trigger] r.lease_of(vh) is None,
            r.history() == Seq::<LeaseCall>::empty(),
            r.follows_history(),
    {
        let r = ProcessLocalLeaseBackend { recs: Vec::new(), log: Ghost(Seq::empty()) };
        assert(recs_view(r.recs@) =~= Seq::<LeaseRecView>::empty());
        assert forall|k: Seq<char>| #[trigger] r.lease_of(k) == held_in(replay(r.history()), k) by {
            assert(replay(r.history()) == Map::<Seq<char>, LeaseRecView>::empty());
        }
        r
    }

    fn take_recs(&mut self) -> (r: Vec<LeaseRec>)
        ensures
            r@ == old(self).recs@,
            distinct_ids(recs_view(r@)),
            final(self).recs@.len() == 0,
            final(self).log == old(self).log,
    {
        proof {
            use_type_invariant(&*self);
        }
        let mut tmp: Vec<LeaseRec> = Vec::new();
        assert(recs_view(tmp@) =~= Seq::<LeaseRecView>::empty());
        std::mem::swap(&mut tmp, &mut self.recs);
        tmp
    }

    /// Acquire against this store, with its effect on the stored records.
    pub fn acquire_local(&mut self, req: LeaseGrant) -> (r: AcquireRes)
        ensures
            exists|w: Option<LeaseRecView>|
                #[trigger] acquire_post(old(self).lease_of(req.vh@), req, r, w) && store_after(
                    *old(self),
                    *final(self),
                    req.vh@,
                    w,
                ),
        final(self).history() == old(self).history(),
    {
        let ghost before = *self;
        let mut recs = self.take_recs();
        let idx = store_find(&recs, req.vh);
        let cur = match idx {
            Some(i) => Some(&recs[i]),
            None => None,
        };
        let (res, w) = cas_acquire(cur, &req);
        let ghost wv = opt_rec_view(w);
        match w {
            Some(rec) => store_put(&mut recs, rec),
            None => {},
        }
        self.recs = recs;
        assert(acquire_post(before.lease_of(req.vh@), req, res, wv) && store_after(
            before,
            *self,
            req.vh@,
            wv,
        ));
        res
    }

    /// Renew against this store, with its effect on the stored records.
    pub fn renew_local(&mut self, req: LeaseKeep) -> (r: RenewRes)
        ensures
            exists|w: Option<LeaseRecView>|
                #[trigger] renew_post(old(self).lease_of(req.vh@), req, r, w) && store_after(
                    *old(self),
                    *final(self),
                    req.vh@,
                    w,
                ),
        final(self).history() == old(self).history(),
    {
        let ghost before = *self;
        let mut recs = self.take_recs();
        let idx = store_find(&recs, req.vh);
        let cur = match idx {
            Some(i) => Some(&recs[i]),
            None => None,
        };
        let (res, w) = cas_renew(cur, &req);
        let ghost wv = opt_rec_view(w);
        match w {
            Some(rec) => store_put(&mut recs, rec),
            None => {},
        }
        self.recs = recs;
        assert(renew_post(before.lease_of(req.vh@), req, res, wv) && store_after(
            before,
            *self,
            req.vh@,
            wv,
        ));
        res
    }

    /// Release against this store, with its effect on the stored records.
    pub fn release_local(&mut self, req: LeaseDrop) -> (r: ReleaseRes)
        ensures
            exists|d: bool|
                #[trigger] release_post(old(self).lease_of(req.vh@), req, r, d) && forall|
                    k: Seq<char>,
                |
                    #[trigger] final(self).lease_of(k) == if d && k == req.vh@ {
                        None
                    } else {
                        old(self).lease_of(k)
                    },
        final(self).history() == old(self).history(),
    {
        let ghost before = *self;
        let mut recs = self.take_recs();
        let idx = store_find(&recs, req.vh);
        let cur = match idx {
            Some(i) => Some(&recs[i]),
            None => None,
        };
        let (res, d) = cas_release(cur, &req);
        if d {
            store_delete(&mut recs, req.vh);
        }
        self.recs = recs;
        assert(release_post(before.lease_of(req.vh@), req, res, d));
        res
    }

    /// Takeover against this store, with its effect on the stored records.
    pub fn takeover_local(&mut self, req: LeaseTake) -> (r: TakeRes)
        ensures
            exists|w: Option<LeaseRecView>|
                #[trigger] takeover_post(old(self).lease_of(req.vh@), req, r, w) && store_after(
                    *old(self),
                    *final(self),
                    req.vh@,
                    w,
                ),
        final(self).history() == old(self).history(),
    {
        let ghost before = *self;
        let mut recs = self.take_recs();
        let idx = store_find(&recs, req.vh);
        let cur = match idx {
            Some(i) => Some(&recs[i]),
            None => None,
        };
        let (res, w) = cas_takeover(cur, &req);
        let ghost wv = opt_rec_view(w);
        match w {
            Some(rec) => store_put(&mut recs, rec),
            None => {},
        }
        self.recs = recs;
        assert(takeover_post(before.lease_of(req.vh@), req, res, wv) && store_after(
            before,
            *self,
            req.vh@,
            wv,
        ));
        res
    }
}

/// The store after a transition: `w`, when present, replaces the record for `vh`.
pub open spec fn store_after(
    before: ProcessLocalLeaseBackend,
    after: ProcessLocalLeaseBackend,
    vh: Seq<char>,
    w: Option<LeaseRecView>,
) -> bool {
    forall|k: Seq<char>|
        #[trigger] after.lease_of(k) == if k == vh && w is Some {
            w
        } else {
            before.lease_of(k)
        }
}

proof fn lemma_stored_update_other(recs: Seq<LeaseRecView>, i: int, rec: LeaseRecView, k: Seq<char>)
    requires
        distinct_ids(recs),
        0 <= i < recs.len(),
        rec.vh == recs[i].vh,
        k != rec.vh,
    ensures
        stored_for(recs.update(i, rec), k) == stored_for(recs, k),
{
    let nr = recs.update(i, rec);
    if exists|j: int| 0 <= j < recs.len() && (#[trigger] recs[j]).vh == k {
        let j = choose|j: int| 0 <= j < recs.len() && (#[trigger] recs[j]).vh == k;
        assert(nr[j] == recs[j]);
        assert(exists|j2: int| 0 <= j2 < nr.len() && (#[trigger] nr[j2]).vh == k);
        let c = choose|j2: int| 0 <= j2 < nr.len() && (#[trigger] nr[j2]).vh == k;
        assert(c != i);
        assert(nr[c] == recs[c]);
        assert(c == j);
    } else {
        assert forall|j: int| 0 <= j < nr.len() implies (#[trigger] nr[j]).vh != k by {
            if j != i {
                assert(nr[j] == recs[j]);
            }
        }
    }
}

proof fn lemma_stored_push_other(recs: Seq<LeaseRecView>, rec: LeaseRecView, k: Seq<char>)
    requires
        distinct_ids(recs),
        k != rec.vh,
    ensures
        stored_for(recs.push(rec), k) == stored_for(recs, k),
{
    let nr = recs.push(rec);
    if exists|j: int| 0 <= j < recs.len() && (#[trigger] recs[j]).vh == k {
        let j = choose|j: int| 0 <= j < recs.len() && (#[trigger] recs[j]).vh == k;
        assert(nr[j] == recs[j]);
        assert(exists|j2: int| 0 <= j2 < nr.len() && (#[trigger] nr[j2]).vh == k);
        let c = choose|j2: int| 0 <= j2 < nr.len() && (#[trigger] nr[j2]).vh == k;
        assert(c < recs.len());
        assert(nr[c] == recs[c]);
    } else {
        assert forall|j: int| 0 <= j < nr.len() implies (#[trigger] nr[j]).vh != k by {
            if j < recs.len() {
                assert(nr[j] == recs[j]);
            }
        }
    }
}

proof fn lemma_stored_remove(recs: Seq<LeaseRecView>, i: int, k: Seq<char>)
    requires
        distinct_ids(recs),
        0 <= i < recs.len(),
    ensures
        distinct_ids(recs.remove(i)),
        stored_for(recs.remove(i), k) == if k == recs[i].vh {
            None
        } else {
            stored_for(recs, k)
        },
{
    let nr = recs.remove(i);
    assert forall|a: int, b: int|
        0 <= a < nr.len() && 0 <= b < nr.len() && a != b implies (#[trigger] nr[a]).vh != (
        #[trigger] nr[b]).vh by {
        let a0 = if a < i {
            a
        } else {
            a + 1
        };
        let b0 = if b < i {
            b
        } else {
            b + 1
        };
        assert(nr[a] == recs[a0]);
        assert(nr[b] == recs[b0]);
    }
    if k == recs[i].vh {
        assert forall|j: int| 0 <= j < nr.len() implies (#[trigger] nr[j]).vh != k by {
            let j0 = if j < i {
                j
            } else {
                j + 1
            };
            assert(nr[j] == recs[j0]);
        }
    } else {
        if exists|j: int| 0 <= j < recs.len() && (#[trigger] recs[j]).vh == k {
            let j = choose|j: int| 0 <= j < recs.len() && (#[trigger] recs[j]).vh == k;
            assert(j != i);
            let jn = if j < i {
                j
            } else {
                j - 1
            };
            assert(nr[jn] == recs[j]);
            assert(exists|j2: int| 0 <= j2 < nr.len() && (#[trigger] nr[j2]).vh == k);
            let c = choose|j2: int| 0 <= j2 < nr.len() && (#[trigger] nr[j2]).vh == k;
            let c0 = if c < i {
                c
            } else {
                c + 1
            };
            assert(nr[c] == recs[c0]);
            assert(c0 == j);
        } else {
            assert forall|j: int| 0 <= j < nr.len() implies (#[trigger] nr[j]).vh != k by {
                let j0 = if j < i {
                    j
                } else {
                    j + 1
                };
                assert(nr[j] == recs[j0]);
            }
        }
    }
}

/// A request that changed the records only at its identity, to what it
/// leaves there, and that was answered from the record stored before it,
/// keeps a store that followed its history in step with it.
proof fn lemma_step_keeps_history(
    before: ProcessLocalLeaseBackend,
    after: ProcessLocalLeaseBackend,
    c: LeaseCall,
)
    requires
        answered_from(before.lease_of(call_vh(c)), c),
        forall|k: Seq<char>|
            #[trigger] after.lease_of(k) == if k == call_vh(c) {
                stored_after_call(before.lease_of(call_vh(c)), c)
            } else {
                before.lease_of(k)
            },
        after.history() == before.history().push(c),
    ensures
        before.follows_history() ==> after.follows_history(),
{
    lemma_replay_push(before.history(), c);
    if before.follows_history() {
        let m = replay(before.history());
        assert(held_in(m, call_vh(c)) == before.lease_of(call_vh(c)));
        assert forall|k: Seq<char>|
            #[trigger] after.lease_of(k) == held_in(replay(after.history()), k) by {
            assert(held_in(m, k) == before.lease_of(k));
        }
    }
}

impl LeaseBackend for ProcessLocalLeaseBackend {
    open spec fn calls(&self) -> Seq<LeaseCall> {
        self.history()
    }

    open spec fn consistent(&self) -> bool {
        self.follows_history()
    }

    fn mode(&self) -> LeaseBackendMode {
        LeaseBackendMode::ProcessLocal
    }

    fn lease_path(&self) -> Option<String> {
        None
    }

    fn acquire(&mut self, req: LeaseGrant) -> (r: Result<AcquireRes, String>) {
        let ghost before = *self;
        let r = Ok(self.acquire_local(req));
        let ghost mid = *self;
        proof {
            use_type_invariant(&*self);
        }
        let ghost c = LeaseCall::Acquire {
            vh: req.vh@,
            owner: req.owner@,
            now_ms: req.now_ms,
            tip_h: req.tip_h,
            ttl_ms: req.ttl_ms,
            answer: r,
        };
        self.log = Ghost(self.log@.push(c));
        proof {
            let w = choose|w: Option<LeaseRecView>|
                #[trigger] acquire_post(before.lease_of(req.vh@), req, r->Ok_0, w) && store_after(
                    before,
                    mid,
                    req.vh@,
                    w,
                );
            assert forall|k: Seq<char>|
                #[trigger] self.lease_of(k) == if k == call_vh(c) {
                    stored_after_call(before.lease_of(call_vh(c)), c)
                } else {
                    before.lease_of(k)
                } by {
                assert(self.lease_of(k) == mid.lease_of(k));
            }
            lemma_step_keeps_history(before, *self, c);
        }
        r
    }

    fn renew(&mut self, req: LeaseKeep) -> (r: Result<RenewRes, String>) {
        let ghost before = *self;
        let r = Ok(self.renew_local(req));
        let ghost mid = *self;
        proof {
            use_type_invariant(&*self);
        }
        let ghost c = LeaseCall::Renew {
            vh: req.vh@,
            owner: req.owner@,
            exp_term: req.exp_term,
            exp_fence: req.exp_fence,
            now_ms: req.now_ms,
            tip_h: req.tip_h,
            ttl_ms: req.ttl_ms,
            answer: r,
        };
        self.log = Ghost(self.log@.push(c));
        proof {
            let w = choose|w: Option<LeaseRecView>|
                #[trigger] renew_post(before.lease_of(req.vh@), req, r->Ok_0, w) && store_after(
                    before,
                    mid,
                    req.vh@,
                    w,
                );
            assert forall|k: Seq<char>|
                #[trigger] self.lease_of(k) == if k == call_vh(c) {
                    stored_after_call(before.lease_of(call_vh(c)), c)
                } else {
                    before.lease_of(k)
                } by {
                assert(self.lease_of(k) == mid.lease_of(k));
            }
            lemma_step_keeps_history(before, *self, c);
        }
        r
    }

    fn release(&mut self, req: LeaseDrop) -> (r: Result<ReleaseRes, String>) {
        let ghost before = *self;
        let r = Ok(self.release_local(req));
        let ghost mid = *self;
        proof {
            use_type_invariant(&*self);
        }
        let ghost c = LeaseCall::Release {
            vh: req.vh@,
            owner: req.owner@,
            exp_term: req.exp_term,
            exp_fence: req.exp_fence,
            answer: r,
        };
        self.log = Ghost(self.log@.push(c));
        proof {
            let d = choose|d: bool|
                #[trigger] release_post(before.lease_of(req.vh@), req, r->Ok_0, d) && forall|
                    k: Seq<char>,
                |
                    #[trigger] mid.lease_of(k) == if d && k == req.vh@ {
                        None
                    } else {
                        before.lease_of(k)
                    };
            assert forall|k: Seq<char>|
                #[trigger] self.lease_of(k) == if k == call_vh(c) {
                    stored_after_call(before.lease_of(call_vh(c)), c)
                } else {
                    before.lease_of(k)
                } by {
                assert(self.lease_of(k) == mid.lease_of(k));
            }
            lemma_step_keeps_history(before, *self, c);
        }
        r
    }

    fn takeover(&mut self, req: LeaseTake) -> (r: Result<TakeRes, String>) {
        let ghost before = *self;
        let r = Ok(self.takeover_local(req));
        let ghost mid = *self;
        proof {
            use_type_invariant(&*self);
        }
        let ghost c = LeaseCall::Take {
            vh: req.vh@,
            owner: req.owner@,
            exp_term: req.exp_term,
            exp_fence: req.exp_fence,
            exp_expiry: req.exp_expiry,
            now_ms: req.now_ms,
            tip_h: req.tip_h,
            ttl_ms: req.ttl_ms,
            answer: r,
        };
        self.log = Ghost(self.log@.push(c));
        proof {
            let w = choose|w: Option<LeaseRecView>|
                #[trigger] takeover_post(before.lease_of(req.vh@), req, r->Ok_0, w) && store_after(
                    before,
                    mid,
                    req.vh@,
                    w,
                );
            assert forall|k: Seq<char>|
                #[trigger] self.lease_of(k) == if k == call_vh(c) {
                    stored_after_call(before.lease_of(call_vh(c)), c)
                } else {
                    before.lease_of(k)
                } by {
                assert(self.lease_of(k) == mid.lease_of(k));
            }
            lemma_step_keeps_history(before, *self, c);
        }
        r
    }
}

} // verus!
