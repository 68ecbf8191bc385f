//! The call-stack execution engine: one frame's ownership set, the
//! move-only transfer of buckets between frames, badge-based
//! authorization, and the leak check at finalization.
//!
//! Buckets and bucket references are owned by exactly one frame. Every
//! operation first checks that the acting frame owns the referenced id;
//! an id outside the frame's ownership set is a protocol violation — the
//! caller and callee disagree about who owns what — and the whole
//! transaction is aborted, never partially committed.
use vstd::prelude::*;

use crate::auth::Auth;
use crate::bucket::{bucket_put, bucket_take, Bucket, BucketError, BucketV};
use crate::ledger::{Ledger, LedgerV};
use crate::store::{KvStore, StoreKey};
use crate::track::{cache_after, lookup, write_back, Track, TrackV};
use crate::types::{Address, Amount, Bid, Rid, Vid};
use crate::vault::{VaultError, VaultV};

verus! {

/// A frame's lifecycle: created on push, running while its code executes,
/// sealed with success or abort, and finalized on pop.
#[derive(Debug, Clone, Copy, PartialEq, Eq, Structural)]
pub enum FrameState {
    Created,
    Running,
    Succeeded,
    Aborted,
    Finalized,
}

/// A fatal runtime condition: either a typed failure bubbled up from an
/// entity operation, or a protocol violation that aborts the transaction.
#[derive(Debug, Clone, Copy, PartialEq, Eq, Structural)]
pub enum RuntimeError {
    /// The acting frame does not own the named bucket.
    BucketNotFound(Bid),
    /// The named bucket is locked by outstanding references.
    BucketLocked(Bid),
    /// A bucket id was reused for a second bucket.
    DuplicateBucket(Bid),
    /// A reference id was reused for a second reference.
    DuplicateReference(Rid),
    /// The vault does not exist.
    VaultNotFound(Vid),
    /// The resource definition does not exist.
    ResourceDefNotFound(Address),
    /// An accounting failure from a bucket operation.
    AccountingError(BucketError),
    /// A failure from a vault operation.
    VaultError(VaultError),
    /// A failure from a resource definition operation.
    ResourceDefError(crate::resource_def::ResourceDefError),
    /// A resource amount would exceed the representable range.
    AmountOverflow,
    /// The frame ended while still owning nonzero resource value or live
    /// references.
    ResourceLeak,
}

/// The model of a call frame: its depth, tracing flag, lifecycle state,
/// the unlocked buckets it owns, the buckets locked under outstanding
/// references, and the reference ids pointing at them. A locked bucket's
/// outstanding-reference count is the number of reference ids mapping to
/// it.
pub struct ProcessV {
    pub depth: nat,
    pub trace: bool,
    pub state: FrameState,
    pub buckets: Map<Bid, BucketV>,
    pub locked: Map<Bid, BucketV>,
    pub refs: Map<Rid, Bid>,
}

/// The badge set a frame presents: the resource addresses of all buckets
/// it holds references to.
pub open spec fn badge_set(p: ProcessV) -> Set<Address> {
    Set::new(
        |a: Address|
            exists|rid: Rid|
                #[trigger] p.refs.contains_key(rid) && p.locked.contains_key(p.refs[rid])
                    && p.locked[p.refs[rid]].resource == a,
    )
}

/// One call's execution context on the call stack.
pub struct Process {
    depth: usize,
    trace: bool,
    state: FrameState,
    buckets: KvStore<Bid, Bucket>,
    locked: KvStore<Bid, Bucket>,
    refs: KvStore<Rid, Bid>,
}

impl View for Process {
    type V = ProcessV;

    closed spec fn view(&self) -> ProcessV {
        ProcessV {
            depth: self.depth as nat,
            trace: self.trace,
            state: self.state,
            buckets: self.buckets@,
            locked: self.locked@,
            refs: self.refs@,
        }
    }
}

impl Process {
    /// The frame's internal well-formedness: sound stores, every
    /// reference points at a locked bucket, and no bucket is both locked
    /// and unlocked. Constructors establish it; every method preserves
    /// it.
    pub closed spec fn wf(&self) -> bool {
        &&& self.buckets.wf()
        &&& self.locked.wf()
        &&& self.refs.wf()
        &&& forall|rid: Rid| #[trigger]
            self.refs@.contains_key(rid) ==> self.locked@.contains_key(self.refs@[rid])
        &&& forall|bid: Bid| #[trigger]
            self.buckets@.contains_key(bid) ==> !self.locked@.contains_key(bid)
    }

    /// A fresh frame at the given call depth.
    pub fn new(depth: usize, trace: bool) -> (r: Self)
        ensures
            r.wf(),
            r@ == (ProcessV {
                depth: depth as nat,
                trace,
                state: FrameState::Created,
                buckets: Map::empty(),
                locked: Map::empty(),
                refs: Map::empty(),
            }),
    {
        Self {
            depth,
            trace,
            state: FrameState::Created,
            buckets: KvStore::new(),
            locked: KvStore::new(),
            refs: KvStore::new(),
        }
    }

    pub fn depth(&self) -> (r: usize)
        ensures
            r as nat == self@.depth,
    {
        self.depth
    }

    pub fn trace(&self) -> (r: bool)
        ensures
            r == self@.trace,
    {
        self.trace
    }

    pub fn state(&self) -> (r: FrameState)
        ensures
            r == self@.state,
    {
        self.state
    }

    /// Starts the frame running.
    pub fn start(&mut self)
        requires
            old(self).wf(),
            old(self)@.state == FrameState::Created,
        ensures
            final(self).wf(),
            final(self)@ == (ProcessV { state: FrameState::Running, ..old(self)@ }),
    {
        self.state = FrameState::Running;
    }

    /// Moves a bucket into this frame's ownership set, as happens when a
    /// caller passes it down or a callee returns it up. A reused id is a
    /// protocol violation.
    pub fn receive_bucket(&mut self, bid: Bid, bucket: Bucket) -> (r: Result<(), RuntimeError>)
        requires
            old(self).wf(),
        ensures
            final(self).wf(),
            old(self)@.buckets.contains_key(bid) || old(self)@.locked.contains_key(bid) ==> r
                == Err::<(), RuntimeError>(RuntimeError::DuplicateBucket(bid)) && final(self)@
                == old(self)@,
            !(old(self)@.buckets.contains_key(bid) || old(self)@.locked.contains_key(bid)) ==> r
                is Ok && final(self)@ == (ProcessV {
                buckets: old(self)@.buckets.insert(bid, bucket@),
                ..old(self)@
            }),
    {
        if self.buckets.contains_key(&bid) || self.locked.contains_key(&bid) {
            Err(RuntimeError::DuplicateBucket(bid))
        } else {
            self.buckets.insert(bid, bucket);
            Ok(())
        }
    }

    /// Moves a bucket out of this frame's ownership set, to hand it to a
    /// callee or back to the caller. The frame must own it, unlocked.
    pub fn take_bucket(&mut self, bid: Bid) -> (r: Result<Bucket, RuntimeError>)
        requires
            old(self).wf(),
        ensures
            final(self).wf(),
            old(self)@.locked.contains_key(bid) ==> r == Err::<Bucket, RuntimeError>(
                RuntimeError::BucketLocked(bid),
            ) && final(self)@ == old(self)@,
            !old(self)@.locked.contains_key(bid) && !old(self)@.buckets.contains_key(bid) ==> r
                == Err::<Bucket, RuntimeError>(RuntimeError::BucketNotFound(bid)) && final(self)@
                == old(self)@,
            old(self)@.buckets.contains_key(bid) ==> {
                &&& r is Ok
                &&& r->Ok_0@ == old(self)@.buckets[bid]
                &&& final(self)@ == (ProcessV {
                    buckets: old(self)@.buckets.remove(bid),
                    ..old(self)@
                })
            },
    {
        if self.locked.contains_key(&bid) {
            proof {
                assert(!old(self)@.buckets.contains_key(bid));
            }
            Err(RuntimeError::BucketLocked(bid))
        } else if !self.buckets.contains_key(&bid) {
            Err(RuntimeError::BucketNotFound(bid))
        } else {
            let b = self.buckets.remove(&bid).unwrap();
            Ok(b)
        }
    }

    /// Splits `amount` out of an owned bucket into a fresh bucket owned
    /// by the same frame, under the fresh id the allocator issued.
    pub fn take_from_bucket(&mut self, bid: Bid, amount: Amount, new_bid: Bid) -> (r: Result<
        (),
        RuntimeError,
    >)
        requires
            old(self).wf(),
        ensures
            final(self).wf(),
            !old(self)@.buckets.contains_key(bid) ==> r == Err::<(), RuntimeError>(
                if old(self)@.locked.contains_key(bid) {
                    RuntimeError::BucketLocked(bid)
                } else {
                    RuntimeError::BucketNotFound(bid)
                },
            ) && final(self)@ == old(self)@,
            old(self)@.buckets.contains_key(bid) && (old(self)@.buckets.contains_key(new_bid)
                || old(self)@.locked.contains_key(new_bid)) ==> r == Err::<(), RuntimeError>(
                RuntimeError::DuplicateBucket(new_bid),
            ) && final(self)@ == old(self)@,
            old(self)@.buckets.contains_key(bid) && !(old(self)@.buckets.contains_key(new_bid)
                || old(self)@.locked.contains_key(new_bid)) ==> match bucket_take(
                old(self)@.buckets[bid],
                amount as nat,
            ) {
                Ok(pair) => r is Ok && final(self)@ == (ProcessV {
                    buckets: old(self)@.buckets.insert(bid, pair.0).insert(new_bid, pair.1),
                    ..old(self)@
                }),
                Err(e) => r == Err::<(), RuntimeError>(RuntimeError::AccountingError(e)) && final(self)@ == old(self)@,
            },
    {
        if !self.buckets.contains_key(&bid) {
            if self.locked.contains_key(&bid) {
                return Err(RuntimeError::BucketLocked(bid));
            }
            return Err(RuntimeError::BucketNotFound(bid));
        }
        if self.buckets.contains_key(&new_bid) || self.locked.contains_key(&new_bid) {
            return Err(RuntimeError::DuplicateBucket(new_bid));
        }
        match self.buckets.get_mut(&bid) {
            Some(b) => {
                match b.take(amount) {
                    Ok(taken) => {
                        self.buckets.insert(new_bid, taken);
                        Ok(())
                    },
                    Err(e) => {
                        proof {
                            assert(old(self)@.buckets.insert(bid, old(self)@.buckets[bid])
                                =~= old(self)@.buckets);
                        }
                        Err(RuntimeError::AccountingError(e))
                    },
                }
            },
            None => Err(RuntimeError::BucketNotFound(bid)),
        }
    }

    /// Merges one owned bucket into another. Both must be owned and
    /// unlocked; the accounting rules decide the rest, and a failed check
    /// leaves both buckets in place.
    pub fn put_into_bucket(&mut self, bid: Bid, other_bid: Bid) -> (r: Result<(), RuntimeError>)
        requires
            old(self).wf(),
        ensures
            final(self).wf(),
            !old(self)@.buckets.contains_key(other_bid) ==> r == Err::<(), RuntimeError>(
                if old(self)@.locked.contains_key(other_bid) {
                    RuntimeError::BucketLocked(other_bid)
                } else {
                    RuntimeError::BucketNotFound(other_bid)
                },
            ) && final(self)@ == old(self)@,
            old(self)@.buckets.contains_key(other_bid) && bid == other_bid ==> r == Err::<
                (),
                RuntimeError,
            >(RuntimeError::DuplicateBucket(bid)) && final(self)@ == old(self)@,
            old(self)@.buckets.contains_key(other_bid) && bid != other_bid && !old(
                self,
            )@.buckets.contains_key(bid) ==> r == Err::<(), RuntimeError>(
                if old(self)@.locked.contains_key(bid) {
                    RuntimeError::BucketLocked(bid)
                } else {
                    RuntimeError::BucketNotFound(bid)
                },
            ) && final(self)@ == old(self)@,
            old(self)@.buckets.contains_key(other_bid) && bid != other_bid && old(
                self,
            )@.buckets.contains_key(bid) ==> {
                let target = old(self)@.buckets[bid];
                let other = old(self)@.buckets[other_bid];
                if target.resource != other.resource {
                    r == Err::<(), RuntimeError>(
                        RuntimeError::AccountingError(BucketError::MismatchingResourceType),
                    ) && final(self)@ == old(self)@
                } else if target.amount + other.amount > Amount::MAX {
                    r == Err::<(), RuntimeError>(RuntimeError::AmountOverflow) && final(self)@
                        == old(self)@
                } else {
                    r is Ok && final(self)@ == (ProcessV {
                        buckets: old(self)@.buckets.remove(other_bid).insert(
                            bid,
                            bucket_put(target, other)->Ok_0,
                        ),
                        ..old(self)@
                    })
                }
            },
    {
        if !self.buckets.contains_key(&other_bid) {
            if self.locked.contains_key(&other_bid) {
                return Err(RuntimeError::BucketLocked(other_bid));
            }
            return Err(RuntimeError::BucketNotFound(other_bid));
        }
        if bid == other_bid {
            return Err(RuntimeError::DuplicateBucket(bid));
        }
        if !self.buckets.contains_key(&bid) {
            if self.locked.contains_key(&bid) {
                return Err(RuntimeError::BucketLocked(bid));
            }
            return Err(RuntimeError::BucketNotFound(bid));
        }
        let (target_amount, target_resource) = match self.buckets.get(&bid) {
            Some(b) => (b.amount(), b.resource()),
            None => {
                return Err(RuntimeError::BucketNotFound(bid));
            },
        };
        let (other_amount, other_resource) = match self.buckets.get(&other_bid) {
            Some(b) => (b.amount(), b.resource()),
            None => {
                return Err(RuntimeError::BucketNotFound(other_bid));
            },
        };
        if target_resource != other_resource {
            return Err(RuntimeError::AccountingError(BucketError::MismatchingResourceType));
        }
        if other_amount > Amount::MAX - target_amount {
            return Err(RuntimeError::AmountOverflow);
        }
        let other = self.buckets.remove(&other_bid).unwrap();
        match self.buckets.get_mut(&bid) {
            Some(b) => {
                let res = b.put(other);
                proof {
                    assert(res is Ok);
                }
                Ok(())
            },
            None => Err(RuntimeError::BucketNotFound(bid)),
        }
    }


    /// Whether the frame holds the id at all, locked or not.
    pub fn holds_id(&self, bid: Bid) -> (r: bool)
        requires
            self.wf(),
        ensures
            r == (self@.buckets.contains_key(bid) || self@.locked.contains_key(bid)),
    {
        self.buckets.contains_key(&bid) || self.locked.contains_key(&bid)
    }

    /// A borrow of an owned, unlocked bucket.
    pub fn get_bucket(&self, bid: Bid) -> (r: Option<&Bucket>)
        requires
            self.wf(),
        ensures
            r is Some <==> self@.buckets.contains_key(bid),
            r is Some ==> r->0@ == self@.buckets[bid],
    {
        self.buckets.get(&bid)
    }

    /// A borrow of the locked bucket an outstanding reference points at.
    pub fn ref_bucket(&self, rid: Rid) -> (r: Option<&Bucket>)
        requires
            self.wf(),
        ensures
            r is Some <==> self@.refs.contains_key(rid),
            r is Some ==> r->0@ == self@.locked[self@.refs[rid]],
    {
        match self.refs.get(&rid) {
            Some(b) => {
                let bid: Bid = *b;
                self.locked.get(&bid)
            },
            None => None,
        }
    }

    /// Creates a new outstanding reference to an owned bucket under the
    /// fresh reference id: the bucket becomes (or stays) locked, immutable
    /// until every reference to it is dropped.
    pub fn create_reference(&mut self, bid: Bid, rid: Rid) -> (r: Result<(), RuntimeError>)
        requires
            old(self).wf(),
        ensures
            final(self).wf(),
            old(self)@.refs.contains_key(rid) ==> r == Err::<(), RuntimeError>(
                RuntimeError::DuplicateReference(rid),
            ) && final(self)@ == old(self)@,
            !old(self)@.refs.contains_key(rid) && old(self)@.buckets.contains_key(bid) ==> r is Ok
                && final(self)@ == (ProcessV {
                buckets: old(self)@.buckets.remove(bid),
                locked: old(self)@.locked.insert(bid, old(self)@.buckets[bid]),
                refs: old(self)@.refs.insert(rid, bid),
                ..old(self)@
            }),
            !old(self)@.refs.contains_key(rid) && !old(self)@.buckets.contains_key(bid) && old(
                self,
            )@.locked.contains_key(bid) ==> r is Ok && final(self)@ == (ProcessV {
                refs: old(self)@.refs.insert(rid, bid),
                ..old(self)@
            }),
            !old(self)@.refs.contains_key(rid) && !old(self)@.buckets.contains_key(bid) && !old(
                self,
            )@.locked.contains_key(bid) ==> r == Err::<(), RuntimeError>(
                RuntimeError::BucketNotFound(bid),
            ) && final(self)@ == old(self)@,
    {
        if self.refs.contains_key(&rid) {
            return Err(RuntimeError::DuplicateReference(rid));
        }
        if self.buckets.contains_key(&bid) {
            let bucket = self.buckets.remove(&bid).unwrap();
            self.locked.insert(bid, bucket);
            self.refs.insert(rid, bid);
            Ok(())
        } else if self.locked.contains_key(&bid) {
            self.refs.insert(rid, bid);
            Ok(())
        } else {
            Err(RuntimeError::BucketNotFound(bid))
        }
    }

    /// Whether some reference other than `except` points at the bucket.
    #[verifier::loop_isolation(false)]
    fn has_other_ref(&self, bid: Bid, except: Rid) -> (r: bool)
        requires
            self.wf(),
        ensures
            r == exists|rid2: Rid|
                rid2 != except && #[trigger] self@.refs.contains_key(rid2) && self@.refs[rid2]
                    == bid,
    {
        let n = self.refs.len();
        let ghost ks = self.refs.key_seq();
        let mut i: usize = 0;
        while i < n
            invariant
                i <= n,
                n == ks.len(),
                ks == self.refs.key_seq(),
                forall|j: int|
                    0 <= j < i ==> !(#[trigger] ks[j] != except && self@.refs[ks[j]] == bid),
            decreases n - i,
        {
            let entry = self.refs.entry_at(i);
            if !entry.0.same(&except) {
                let target: Bid = entry.1;
                if target.same(&bid) {
                    proof {
                        assert(ks[i as int] != except && self@.refs[ks[i as int]] == bid);
                    }
                    return true;
                }
            }
            i += 1;
        }
        proof {
            assert forall|rid2: Rid|
                rid2 != except && #[trigger] self@.refs.contains_key(rid2) implies self@.refs[rid2]
                != bid by {
                assert(ks.contains(rid2));
                let j = choose|j: int| 0 <= j < ks.len() && ks[j] == rid2;
                assert(!(ks[j] != except && self@.refs[ks[j]] == bid));
            }
        }
        false
    }

    /// Drops one outstanding reference. Dropping an id the frame does not
    /// hold is a reference-count underflow — the caller dropped more than
    /// it took. When the last reference to a bucket goes, the bucket
    /// unlocks and returns to the frame's spendable set.
    pub fn drop_reference(&mut self, rid: Rid) -> (r: Result<(), RuntimeError>)
        requires
            old(self).wf(),
        ensures
            final(self).wf(),
            !old(self)@.refs.contains_key(rid) ==> r == Err::<(), RuntimeError>(
                RuntimeError::AccountingError(BucketError::ReferenceCountUnderflow),
            ) && final(self)@ == old(self)@,
            old(self)@.refs.contains_key(rid) ==> {
                let bid = old(self)@.refs[rid];
                let still = exists|rid2: Rid|
                    rid2 != rid && #[trigger] old(self)@.refs.contains_key(rid2) && old(
                        self,
                    )@.refs[rid2] == bid;
                &&& r is Ok
                &&& (still ==> final(self)@ == (ProcessV {
                    refs: old(self)@.refs.remove(rid),
                    ..old(self)@
                }))
                &&& (!still ==> final(self)@ == (ProcessV {
                    refs: old(self)@.refs.remove(rid),
                    locked: old(self)@.locked.remove(bid),
                    buckets: old(self)@.buckets.insert(bid, old(self)@.locked[bid]),
                    ..old(self)@
                }))
            },
    {
        let bid = match self.refs.get(&rid) {
            Some(b) => *b,
            None => {
                return Err(
                    RuntimeError::AccountingError(BucketError::ReferenceCountUnderflow),
                );
            },
        };
        let still = self.has_other_ref(bid, rid);
        self.refs.remove(&rid);
        if !still {
            let bucket = self.locked.remove(&bid).unwrap();
            self.buckets.insert(bid, bucket);
        }
        Ok(())
    }

    /// The badge set this frame can present: the resource addresses of
    /// every bucket it holds a reference to.
    #[verifier::loop_isolation(false)]
    pub fn badges(&self) -> (r: Auth)
        requires
            self.wf(),
        ensures
            forall|a: Address| r@.contains(a) <==> badge_set(self@).contains(a),
    {
        let mut out: Vec<Address> = Vec::new();
        let n = self.refs.len();
        let ghost ks = self.refs.key_seq();
        let mut i: usize = 0;
        while i < n
            invariant
                i <= n,
                n == ks.len(),
                ks == self.refs.key_seq(),
                forall|a: Address|
                    out@.contains(a) <==> exists|j: int|
                        0 <= j < i && self@.locked[self@.refs[#[trigger] ks[j]]].resource == a,
            decreases n - i,
        {
            let entry = self.refs.entry_at(i);
            let target: Bid = entry.1;
            let bucket = *self.locked.get(&target).unwrap();
            let ghost before = out@;
            out.push(bucket.resource());
            proof {
                assert forall|a: Address|
                    out@.contains(a) <==> exists|j: int|
                        0 <= j < i + 1 && self@.locked[self@.refs[#[trigger] ks[j]]].resource
                            == a by {
                    if out@.contains(a) {
                        if before.contains(a) {
                        } else {
                            assert(out@.last() == a);
                            assert(self@.locked[self@.refs[ks[i as int]]].resource == a);
                        }
                    }
                    if exists|j: int|
                        0 <= j < i + 1 && self@.locked[self@.refs[#[trigger] ks[j]]].resource
                            == a {
                        let j = choose|j: int|
                            0 <= j < i + 1 && self@.locked[self@.refs[#[trigger] ks[j]]].resource
                                == a;
                        if j < i {
                            assert(before.contains(a));
                            assert(out@.contains(a)) by {
                                let k = choose|k: int| 0 <= k < before.len() && before[k] == a;
                                assert(out@[k] == a);
                            }
                        } else {
                            assert(out@.last() == a);
                        }
                    }
                }
            }
            i += 1;
        }
        proof {
            assert forall|a: Address|
                out@.contains(a) <==> badge_set(self@).contains(a) by {
                if out@.contains(a) {
                    let j = choose|j: int|
                        0 <= j < n && self@.locked[self@.refs[#[trigger] ks[j]]].resource == a;
                    assert(ks.contains(ks[j]));
                    assert(self@.refs.contains_key(ks[j]));
                }
                if badge_set(self@).contains(a) {
                    let rid = choose|rid: Rid|
                        #[trigger] self@.refs.contains_key(rid) && self@.locked.contains_key(
                            self@.refs[rid],
                        ) && self@.locked[self@.refs[rid]].resource == a;
                    assert(ks.contains(rid));
                    let j = choose|j: int| 0 <= j < ks.len() && ks[j] == rid;
                    assert(self@.locked[self@.refs[ks[j]]].resource == a);
                }
            }
        }
        Auth::with_badges(out)
    }

    /// Deposits an owned bucket into a vault reached through the
    /// transaction overlay. The acting frame's badges must cover the
    /// vault's bound authority; the check — and every accounting check —
    /// happens before any value moves, so a failure leaves the bucket in
    /// the frame and the vault's contents unchanged.
    pub fn put_into_vault<L: Ledger>(&mut self, vid: Vid, bid: Bid, track: &mut Track<L>) -> (r:
        Result<(), RuntimeError>)
        requires
            old(self).wf(),
            old(track).wf(),
        ensures
            final(self).wf(),
            final(track).wf(),
            !old(self)@.buckets.contains_key(bid) ==> r == Err::<(), RuntimeError>(
                if old(self)@.locked.contains_key(bid) {
                    RuntimeError::BucketLocked(bid)
                } else {
                    RuntimeError::BucketNotFound(bid)
                },
            ) && final(self)@ == old(self)@ && final(track)@ == old(track)@,
            old(self)@.buckets.contains_key(bid) ==> {
                let b = old(self)@.buckets[bid];
                let found = lookup(old(track)@.vaults, old(track)@.ledger.vaults, vid);
                let cached = cache_after(old(track)@.vaults, old(track)@.ledger.vaults, vid);
                match found {
                    None => r == Err::<(), RuntimeError>(RuntimeError::VaultNotFound(vid))
                        && final(self)@ == old(self)@ && final(track)@ == old(track)@,
                    Some(v) => {
                        if !badge_set(old(self)@).contains(v.auth) {
                            &&& r == Err::<(), RuntimeError>(
                                RuntimeError::VaultError(VaultError::UnauthorizedAccess),
                            )
                            &&& final(self)@ == old(self)@
                            &&& final(track)@ == (TrackV {
                                vaults: cached.insert(vid, v),
                                dirty_vaults: old(track)@.dirty_vaults.insert(vid),
                                ..old(track)@
                            })
                        } else if v.bucket.resource != b.resource {
                            &&& r == Err::<(), RuntimeError>(
                                RuntimeError::VaultError(
                                    VaultError::AccountingError(
                                        BucketError::MismatchingResourceType,
                                    ),
                                ),
                            )
                            &&& final(self)@ == old(self)@
                            &&& final(track)@ == (TrackV {
                                vaults: cached.insert(vid, v),
                                dirty_vaults: old(track)@.dirty_vaults.insert(vid),
                                ..old(track)@
                            })
                        } else if v.bucket.amount + b.amount > Amount::MAX {
                            &&& r == Err::<(), RuntimeError>(RuntimeError::AmountOverflow)
                            &&& final(self)@ == old(self)@
                            &&& final(track)@ == (TrackV {
                                vaults: cached.insert(vid, v),
                                dirty_vaults: old(track)@.dirty_vaults.insert(vid),
                                ..old(track)@
                            })
                        } else {
                            &&& r is Ok
                            &&& final(self)@ == (ProcessV {
                                buckets: old(self)@.buckets.remove(bid),
                                ..old(self)@
                            })
                            &&& final(track)@ == (TrackV {
                                vaults: cached.insert(
                                    vid,
                                    VaultV {
                                        bucket: bucket_put(v.bucket, b)->Ok_0,
                                        auth: v.auth,
                                    },
                                ),
                                dirty_vaults: old(track)@.dirty_vaults.insert(vid),
                                ..old(track)@
                            })
                        }
                    },
                }
            },
    {
        if !self.buckets.contains_key(&bid) {
            if self.locked.contains_key(&bid) {
                return Err(RuntimeError::BucketLocked(bid));
            }
            return Err(RuntimeError::BucketNotFound(bid));
        }
        let auth = self.badges();
        let bucket_amount = match self.buckets.get(&bid) {
            Some(b) => b.amount(),
            None => {
                return Err(RuntimeError::BucketNotFound(bid));
            },
        };
        let bucket_resource = match self.buckets.get(&bid) {
            Some(b) => b.resource(),
            None => {
                return Err(RuntimeError::BucketNotFound(bid));
            },
        };
        match track.get_vault_mut(vid) {
            None => Err(RuntimeError::VaultNotFound(vid)),
            Some(m) => {
                let vault_amount = match m.amount(&auth) {
                    Ok(a) => a,
                    Err(_) => {
                        return Err(RuntimeError::VaultError(VaultError::UnauthorizedAccess));
                    },
                };
                let vault_resource = match m.resource_def(&auth) {
                    Ok(a) => a,
                    Err(_) => {
                        return Err(RuntimeError::VaultError(VaultError::UnauthorizedAccess));
                    },
                };
                if vault_resource != bucket_resource {
                    return Err(
                        RuntimeError::VaultError(
                            VaultError::AccountingError(BucketError::MismatchingResourceType),
                        ),
                    );
                }
                if bucket_amount > Amount::MAX - vault_amount {
                    return Err(RuntimeError::AmountOverflow);
                }
                let bucket = self.buckets.remove(&bid).unwrap();
                let res = m.put(bucket, &auth);
                proof {
                    assert(res is Ok);
                }
                Ok(())
            },
        }
    }

    /// Withdraws an amount from a vault into a fresh bucket owned by the
    /// acting frame, under the same badge check.
    pub fn take_from_vault<L: Ledger>(
        &mut self,
        vid: Vid,
        amount: Amount,
        new_bid: Bid,
        track: &mut Track<L>,
    ) -> (r: Result<(), RuntimeError>)
        requires
            old(self).wf(),
            old(track).wf(),
        ensures
            final(self).wf(),
            final(track).wf(),
            old(self)@.buckets.contains_key(new_bid) || old(self)@.locked.contains_key(new_bid)
                ==> r == Err::<(), RuntimeError>(RuntimeError::DuplicateBucket(new_bid)) && final(self)@ == old(self)@ && final(track)@ == old(track)@,
            !(old(self)@.buckets.contains_key(new_bid) || old(self)@.locked.contains_key(new_bid))
                ==> {
                let found = lookup(old(track)@.vaults, old(track)@.ledger.vaults, vid);
                let cached = cache_after(old(track)@.vaults, old(track)@.ledger.vaults, vid);
                match found {
                    None => r == Err::<(), RuntimeError>(RuntimeError::VaultNotFound(vid))
                        && final(self)@ == old(self)@ && final(track)@ == old(track)@,
                    Some(v) => {
                        if !badge_set(old(self)@).contains(v.auth) {
                            &&& r == Err::<(), RuntimeError>(
                                RuntimeError::VaultError(VaultError::UnauthorizedAccess),
                            )
                            &&& final(self)@ == old(self)@
                            &&& final(track)@ == (TrackV {
                                vaults: cached.insert(vid, v),
                                dirty_vaults: old(track)@.dirty_vaults.insert(vid),
                                ..old(track)@
                            })
                        } else {
                            match bucket_take(v.bucket, amount as nat) {
                                Err(e) => {
                                    &&& r == Err::<(), RuntimeError>(
                                        RuntimeError::VaultError(VaultError::AccountingError(e)),
                                    )
                                    &&& final(self)@ == old(self)@
                                    &&& final(track)@ == (TrackV {
                                        vaults: cached.insert(vid, v),
                                        dirty_vaults: old(track)@.dirty_vaults.insert(vid),
                                        ..old(track)@
                                    })
                                },
                                Ok(pair) => {
                                    &&& r is Ok
                                    &&& final(self)@ == (ProcessV {
                                        buckets: old(self)@.buckets.insert(new_bid, pair.1),
                                        ..old(self)@
                                    })
                                    &&& final(track)@ == (TrackV {
                                        vaults: cached.insert(
                                            vid,
                                            VaultV { bucket: pair.0, auth: v.auth },
                                        ),
                                        dirty_vaults: old(track)@.dirty_vaults.insert(vid),
                                        ..old(track)@
                                    })
                                },
                            }
                        }
                    },
                }
            },
    {
        if self.buckets.contains_key(&new_bid) || self.locked.contains_key(&new_bid) {
            return Err(RuntimeError::DuplicateBucket(new_bid));
        }
        let auth = self.badges();
        match track.get_vault_mut(vid) {
            None => Err(RuntimeError::VaultNotFound(vid)),
            Some(m) => {
                match m.take(amount, &auth) {
                    Ok(bucket) => {
                        self.buckets.insert(new_bid, bucket);
                        Ok(())
                    },
                    Err(VaultError::UnauthorizedAccess) => Err(
                        RuntimeError::VaultError(VaultError::UnauthorizedAccess),
                    ),
                    Err(VaultError::AccountingError(e)) => Err(
                        RuntimeError::VaultError(VaultError::AccountingError(e)),
                    ),
                }
            },
        }
    }

    /// Ends the frame: every bucket still owned must be empty and no
    /// reference may be outstanding, or the frame aborts with a resource
    /// leak. Success seals the frame as succeeded; a leak seals it as
    /// aborted, and the transaction it belongs to must be discarded.
    #[verifier::loop_isolation(false)]
    pub fn finalize(&mut self) -> (r: Result<(), RuntimeError>)
        requires
            old(self).wf(),
            old(self)@.state == FrameState::Running,
        ensures
            final(self).wf(),
            r is Ok <==> (forall|bid: Bid| #[trigger]
                old(self)@.buckets.contains_key(bid) ==> old(self)@.buckets[bid].amount == 0)
                && (forall|bid: Bid| !(#[trigger] old(self)@.locked.contains_key(bid))),
            r is Ok ==> final(self)@ == (ProcessV { state: FrameState::Succeeded, ..old(self)@ }),
            r is Err ==> r == Err::<(), RuntimeError>(RuntimeError::ResourceLeak) && final(self)@
                == (ProcessV { state: FrameState::Aborted, ..old(self)@ }),
    {
        let mut leak = false;
        let n = self.buckets.len();
        let ghost ks = self.buckets.key_seq();
        let mut i: usize = 0;
        while i < n
            invariant
                i <= n,
                n == ks.len(),
                ks == self.buckets.key_seq(),
                self == old(self),
                leak <==> exists|j: int|
                    0 <= j < i && self@.buckets[#[trigger] ks[j]].amount != 0,
            decreases n - i,
        {
            let entry = self.buckets.entry_at(i);
            if entry.1.amount() > 0 {
                proof {
                    assert(self@.buckets[ks[i as int]].amount != 0);
                }
                leak = true;
            }
            i += 1;
        }
        let locked_count = self.locked.len();
        if leak || locked_count > 0 {
            proof {
                if leak {
                    let j = choose|j: int|
                        0 <= j < n && self@.buckets[#[trigger] ks[j]].amount != 0;
                    assert(ks.contains(ks[j]));
                    assert(self@.buckets.contains_key(ks[j]));
                } else {
                    let ks2 = self.locked.key_seq();
                    assert(ks2.len() > 0);
                    assert(ks2.contains(ks2[0]));
                    assert(self@.locked.contains_key(ks2[0]));
                }
            }
            self.state = FrameState::Aborted;
            Err(RuntimeError::ResourceLeak)
        } else {
            proof {
                assert forall|bid: Bid| #[trigger]
                    self@.buckets.contains_key(bid) implies self@.buckets[bid].amount == 0 by {
                    assert(ks.contains(bid));
                    let j = choose|j: int| 0 <= j < ks.len() && ks[j] == bid;
                    assert(!(self@.buckets[ks[j]].amount != 0));
                }
                assert forall|bid: Bid| !(#[trigger] self@.locked.contains_key(bid)) by {
                    if self@.locked.contains_key(bid) {
                        assert(self.locked.key_seq().contains(bid));
                        assert(self@.locked.dom().len() > 0);
                    }
                }
            }
            self.state = FrameState::Succeeded;
            Ok(())
        }
    }

    /// Retires a sealed frame as it is popped from the call stack.
    pub fn retire(&mut self)
        requires
            old(self).wf(),
            old(self)@.state == FrameState::Succeeded || old(self)@.state == FrameState::Aborted,
        ensures
            final(self).wf(),
            final(self)@ == (ProcessV { state: FrameState::Finalized, ..old(self)@ }),
    {
        self.state = FrameState::Finalized;
    }
}



/// The buckets map after the named ids leave it, in order.
pub open spec fn remove_ids(m: Map<Bid, BucketV>, s: Seq<Bid>) -> Map<Bid, BucketV>
    decreases s.len(),
{
    if s.len() == 0 {
        m
    } else {
        remove_ids(m, s.drop_last()).remove(s.last())
    }
}

/// The buckets map after the named ids arrive from a source map.
pub open spec fn add_ids(m: Map<Bid, BucketV>, src: Map<Bid, BucketV>, s: Seq<Bid>) -> Map<
    Bid,
    BucketV,
>
    decreases s.len(),
{
    if s.len() == 0 {
        m
    } else {
        add_ids(m, src, s.drop_last()).insert(s.last(), src[s.last()])
    }
}

/// Whether a frame owns, unlocked, every named bucket.
pub open spec fn owns_all(p: ProcessV, s: Seq<Bid>) -> bool {
    forall|i: int| 0 <= i < s.len() ==> p.buckets.contains_key(#[trigger] s[i])
}

/// Whether none of the named ids is taken in the receiving frame.
pub open spec fn none_taken(p: ProcessV, s: Seq<Bid>) -> bool {
    forall|i: int|
        0 <= i < s.len() ==> !p.buckets.contains_key(#[trigger] s[i]) && !p.locked.contains_key(
            s[i],
        )
}

/// Moves the named buckets out of one frame's ownership set into
/// another's, as the calling convention does for a call's arguments and
/// for the buckets a callee explicitly returns. Every id is checked
/// before anything moves: either all of them change hands, or none does.
#[verifier::loop_isolation(false)]
pub fn move_buckets(from: &mut Process, to: &mut Process, bids: &Vec<Bid>) -> (r: Result<
    (),
    RuntimeError,
>)
    requires
        old(from).wf(),
        old(to).wf(),
    ensures
        final(from).wf(),
        final(to).wf(),
        r is Ok <==> bids@.no_duplicates() && owns_all(old(from)@, bids@) && none_taken(
            old(to)@,
            bids@,
        ),
        r is Ok ==> final(from)@ == (ProcessV {
            buckets: remove_ids(old(from)@.buckets, bids@),
            ..old(from)@
        }) && final(to)@ == (ProcessV {
            buckets: add_ids(old(to)@.buckets, old(from)@.buckets, bids@),
            ..old(to)@
        }),
        r is Err ==> final(from)@ == old(from)@ && final(to)@ == old(to)@,
{
    let n = bids.len();
    let mut i: usize = 0;
    while i < n
        invariant
            i <= n,
            from == old(from),
            to == old(to),
            forall|j: int, k: int|
                0 <= j < k < i ==> (#[trigger] bids@[j]) != (#[trigger] bids@[k]),
            forall|j: int| 0 <= j < i ==> from@.buckets.contains_key(#[trigger] bids@[j]),
            forall|j: int|
                0 <= j < i ==> !to@.buckets.contains_key(#[trigger] bids@[j])
                    && !to@.locked.contains_key(bids@[j]),
        decreases n - i,
    {
        let bid = bids[i];
        if !from.get_bucket(bid).is_some() {
            proof {
                assert(!owns_all(old(from)@, bids@));
            }
            return Err(RuntimeError::BucketNotFound(bid));
        }
        if to.holds_id(bid) {
            proof {
                assert(!none_taken(old(to)@, bids@));
            }
            return Err(RuntimeError::DuplicateBucket(bid));
        }
        let mut j: usize = 0;
        while j < i
            invariant
                j <= i,
                i < n,
                forall|k: int| 0 <= k < j ==> (#[trigger] bids@[k]) != bids@[i as int],
            decreases i - j,
        {
            if bids[j].same(&bid) {
                proof {
                    assert(!bids@.no_duplicates());
                }
                return Err(RuntimeError::DuplicateBucket(bid));
            }
            j += 1;
        }
        i += 1;
    }
    let ghost from0 = old(from)@;
    let ghost to0 = old(to)@;
    let mut i: usize = 0;
    proof {
        assert(remove_ids(from0.buckets, bids@.take(0)) =~= from0.buckets);
        assert(add_ids(to0.buckets, from0.buckets, bids@.take(0)) =~= to0.buckets);
    }
    while i < n
        invariant
            i <= n,
            from.wf(),
            to.wf(),
            bids@.no_duplicates(),
            owns_all(from0, bids@),
            none_taken(to0, bids@),
            from@ == (ProcessV { buckets: remove_ids(from0.buckets, bids@.take(i as int)), ..from0 }),
            to@ == (ProcessV {
                buckets: add_ids(to0.buckets, from0.buckets, bids@.take(i as int)),
                ..to0
            }),
        decreases n - i,
    {
        let bid = bids[i];
        proof {
            assert(bids@.take(i + 1).drop_last() =~= bids@.take(i as int));
            assert(bids@.take(i + 1).last() == bid);
            assert(forall|j: int|
                0 <= j < i ==> (#[trigger] bids@[j]) != bid) by {
                assert(bids@.no_duplicates());
            }
            lemma_remove_ids_untouched(from0.buckets, bids@.take(i as int), bid);
            lemma_add_ids_untouched(to0.buckets, from0.buckets, bids@.take(i as int), bid);
        }
        let bucket = match from.take_bucket(bid) {
            Ok(b) => b,
            Err(_) => {
                proof {
                    assert(false);
                }
                return Err(RuntimeError::BucketNotFound(bid));
            },
        };
        match to.receive_bucket(bid, bucket) {
            Ok(()) => (),
            Err(_) => {
                proof {
                    assert(false);
                }
                return Err(RuntimeError::DuplicateBucket(bid));
            },
        }
        i += 1;
    }
    proof {
        assert(bids@.take(n as int) =~= bids@);
    }
    Ok(())
}

/// An id not among the removed ones keeps its binding.
proof fn lemma_remove_ids_untouched(m: Map<Bid, BucketV>, s: Seq<Bid>, bid: Bid)
    requires
        forall|j: int| 0 <= j < s.len() ==> (#[trigger] s[j]) != bid,
    ensures
        remove_ids(m, s).contains_key(bid) <==> m.contains_key(bid),
        m.contains_key(bid) ==> remove_ids(m, s)[bid] == m[bid],
    decreases s.len(),
{
    if s.len() > 0 {
        assert(forall|j: int| 0 <= j < s.drop_last().len() ==> (#[trigger] s.drop_last()[j]) != bid)
            by {
            assert(forall|j: int|
                0 <= j < s.len() - 1 ==> s.drop_last()[j] == (#[trigger] s[j]));
        }
        lemma_remove_ids_untouched(m, s.drop_last(), bid);
        assert(s.last() != bid);
    }
}

/// An id not among the added ones keeps its binding.
proof fn lemma_add_ids_untouched(m: Map<Bid, BucketV>, src: Map<Bid, BucketV>, s: Seq<Bid>, bid: Bid)
    requires
        forall|j: int| 0 <= j < s.len() ==> (#[trigger] s[j]) != bid,
    ensures
        add_ids(m, src, s).contains_key(bid) <==> m.contains_key(bid),
        m.contains_key(bid) ==> add_ids(m, src, s)[bid] == m[bid],
    decreases s.len(),
{
    if s.len() > 0 {
        assert(forall|j: int| 0 <= j < s.drop_last().len() ==> (#[trigger] s.drop_last()[j]) != bid)
            by {
            assert(forall|j: int|
                0 <= j < s.len() - 1 ==> s.drop_last()[j] == (#[trigger] s[j]));
        }
        lemma_add_ids_untouched(m, src, s.drop_last(), bid);
        assert(s.last() != bid);
    }
}

/// Ends a transaction as a whole: the root frame is finalized, and only a
/// cleanly ended frame lets the overlay commit. An abort anywhere
/// discards the entire effect set — the ledger comes back exactly as the
/// transaction found it, never partially written.
pub fn settle_transaction<L: Ledger>(track: Track<L>, frame: &mut Process) -> (r: (
    L,
    Result<(), RuntimeError>,
))
    requires
        old(frame).wf(),
        track.wf(),
        old(frame)@.state == FrameState::Running,
    ensures
        final(frame).wf(),
        match r.1 {
            Ok(()) => {
                &&& final(frame)@ == (ProcessV {
                    state: FrameState::Finalized,
                    ..old(frame)@
                })
                &&& r.0.model() == (LedgerV {
                    packages: write_back(
                        track@.ledger.packages,
                        track@.packages,
                        track@.dirty_packages,
                    ),
                    components: write_back(
                        track@.ledger.components,
                        track@.components,
                        track@.dirty_components,
                    ),
                    resource_defs: write_back(
                        track@.ledger.resource_defs,
                        track@.resource_defs,
                        track@.dirty_resource_defs,
                    ),
                    lazy_maps: write_back(
                        track@.ledger.lazy_maps,
                        track@.lazy_maps,
                        track@.dirty_lazy_maps,
                    ),
                    vaults: write_back(track@.ledger.vaults, track@.vaults, track@.dirty_vaults),
                })
            },
            Err(e) => {
                &&& e == RuntimeError::ResourceLeak
                &&& final(frame)@ == (ProcessV {
                    state: FrameState::Finalized,
                    ..old(frame)@
                })
                &&& r.0.model() == track@.ledger
            },
        },
        r.1 is Ok <==> (forall|bid: Bid| #[trigger]
            old(frame)@.buckets.contains_key(bid) ==> old(frame)@.buckets[bid].amount == 0) && (
        forall|bid: Bid| !(#[trigger] old(frame)@.locked.contains_key(bid))),
{
    let mut track = track;
    let outcome = frame.finalize();
    frame.retire();
    match outcome {
        Ok(()) => {
            track.commit();
            (track.into_ledger(), Ok(()))
        },
        Err(e) => (track.into_ledger(), Err(e)),
    }
}

/// Law: value is conserved across a call boundary. A callee that receives
/// a bucket of amount `a`, splits off `p` and deposits it into a vault it
/// is authorized for, and returns the remainder, leaves the total of the
/// returned bucket and the vault exactly where it started: nothing is
/// created or destroyed by the split, the deposit or the return.
pub proof fn lemma_call_boundary_conservation(b: BucketV, v: VaultV, p: nat, badges: Set<Address>)
    requires
        badges.contains(v.auth),
        v.bucket.resource == b.resource,
        p <= b.amount,
    ensures
        bucket_take(b, p) is Ok,
        ({
            let pair = bucket_take(b, p)->Ok_0;
            &&& bucket_put(v.bucket, pair.1) is Ok
            &&& pair.0.amount + bucket_put(v.bucket, pair.1)->Ok_0.amount == b.amount
                + v.bucket.amount
        }),
{
}

} // verus!
