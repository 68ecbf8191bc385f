//! Handles to resources owned by a call frame: the surface a blueprint's
//! code works with. A handle carries only an id; every operation acts on
//! the frame that owns the resource and, for durable state, on the
//! transaction overlay.
use vstd::prelude::*;

use crate::bucket;
use crate::bucket::{bucket_put, bucket_take, BucketError};
use crate::ledger::Ledger;
use crate::process::{Process, ProcessV, RuntimeError};
use crate::resource_def::{
    copy_metadata, metadata_view, ResourceDef, ResourceDefV, Supply, SupplyV,
};
use crate::track::{cache_after, lookup, Track, TrackV};
use crate::types::{Address, Amount, Bid, Rid};

verus! {

/// A transient resource container owned by the acting frame.
#[derive(Debug, Clone, Copy)]
pub struct Bucket {
    bid: Bid,
}

impl View for Bucket {
    type V = Bid;

    closed spec fn view(&self) -> Bid {
        self.bid
    }
}

impl Bucket {
    /// The id this handle stands for.
    pub fn bid(&self) -> (r: Bid)
        ensures
            r == self@,
    {
        self.bid
    }

    /// A handle for a bucket id the frame already owns.
    pub fn from_bid(bid: Bid) -> (r: Self)
        ensures
            r@ == bid,
    {
        Self { bid }
    }

    /// Creates a fresh, empty bucket of the given resource in the acting
    /// frame.
    pub fn new<L: Ledger>(resource_def: Address, proc: &mut Process, track: &mut Track<L>) -> (r:
        Result<Bucket, RuntimeError>)
        requires
            old(proc).wf(),
            old(track).wf(),
            old(track)@.next_id < u32::MAX,
        ensures
            final(proc).wf(),
            final(track).wf(),
            final(track)@ == (TrackV {
                next_id: (old(track)@.next_id + 1) as u32,
                ..old(track)@
            }),
            ({
                let nb = Bid(old(track)@.next_id);
                if old(proc)@.buckets.contains_key(nb) || old(proc)@.locked.contains_key(nb) {
                    r == Err::<Bucket, RuntimeError>(RuntimeError::DuplicateBucket(nb)) && final(proc)@ == old(proc)@
                } else {
                    r is Ok && r->Ok_0@ == nb && final(proc)@ == (ProcessV {
                        buckets: old(proc)@.buckets.insert(
                            nb,
                            bucket::BucketV { amount: 0, resource: resource_def },
                        ),
                        ..old(proc)@
                    })
                }
            }),
    {
        let bid = track.new_bid();
        match proc.receive_bucket(bid, bucket::Bucket::new(0, resource_def)) {
            Ok(()) => Ok(Bucket { bid }),
            Err(e) => Err(e),
        }
    }

    /// Merges another owned bucket into this one.
    pub fn put(&self, other: Bucket, proc: &mut Process) -> (r: Result<(), RuntimeError>)
        requires
            old(proc).wf(),
        ensures
            final(proc).wf(),
            r is Ok <==> old(proc)@.buckets.contains_key(other@) && other@ != self@ && old(
                proc,
            )@.buckets.contains_key(self@) && old(proc)@.buckets[self@].resource == old(
                proc,
            )@.buckets[other@].resource && old(proc)@.buckets[self@].amount + old(
                proc,
            )@.buckets[other@].amount <= Amount::MAX,
            r is Ok ==> final(proc)@ == (ProcessV {
                buckets: old(proc)@.buckets.remove(other@).insert(
                    self@,
                    bucket_put(old(proc)@.buckets[self@], old(proc)@.buckets[other@])->Ok_0,
                ),
                ..old(proc)@
            }),
            r is Err ==> final(proc)@ == old(proc)@,
    {
        proc.put_into_bucket(self.bid, other.bid)
    }

    /// Splits an amount off into a fresh bucket owned by the same frame.
    pub fn take<L: Ledger>(
        &self,
        amount: Amount,
        proc: &mut Process,
        track: &mut Track<L>,
    ) -> (r: Result<Bucket, RuntimeError>)
        requires
            old(proc).wf(),
            old(track).wf(),
            old(track)@.next_id < u32::MAX,
        ensures
            final(proc).wf(),
            final(track).wf(),
            final(track)@ == (TrackV {
                next_id: (old(track)@.next_id + 1) as u32,
                ..old(track)@
            }),
            ({
                let nb = Bid(old(track)@.next_id);
                &&& (r is Ok <==> old(proc)@.buckets.contains_key(self@) && !(old(
                    proc,
                )@.buckets.contains_key(nb) || old(proc)@.locked.contains_key(nb)) && amount as nat
                    <= old(proc)@.buckets[self@].amount)
                &&& r is Ok ==> r->Ok_0@ == nb && final(proc)@ == (ProcessV {
                    buckets: old(proc)@.buckets.insert(
                        self@,
                        bucket_take(old(proc)@.buckets[self@], amount as nat)->Ok_0.0,
                    ).insert(nb, bucket_take(old(proc)@.buckets[self@], amount as nat)->Ok_0.1),
                    ..old(proc)@
                })
                &&& r is Err ==> final(proc)@ == old(proc)@
            }),
    {
        let bid = track.new_bid();
        match proc.take_from_bucket(self.bid, amount, bid) {
            Ok(()) => Ok(Bucket { bid }),
            Err(e) => Err(e),
        }
    }

    /// Creates an outstanding reference to this bucket, locking it.
    pub fn borrow<L: Ledger>(&self, proc: &mut Process, track: &mut Track<L>) -> (r: Result<
        BucketRef,
        RuntimeError,
    >)
        requires
            old(proc).wf(),
            old(track).wf(),
            old(track)@.next_id < u32::MAX,
        ensures
            final(proc).wf(),
            final(track).wf(),
            final(track)@ == (TrackV {
                next_id: (old(track)@.next_id + 1) as u32,
                ..old(track)@
            }),
            ({
                let nr = Rid(old(track)@.next_id);
                &&& (r is Ok <==> !old(proc)@.refs.contains_key(nr) && (old(
                    proc,
                )@.buckets.contains_key(self@) || old(proc)@.locked.contains_key(self@)))
                &&& r is Ok ==> r->Ok_0@ == nr
                &&& r is Ok && old(proc)@.buckets.contains_key(self@) ==> final(proc)@
                    == (ProcessV {
                    buckets: old(proc)@.buckets.remove(self@),
                    locked: old(proc)@.locked.insert(self@, old(proc)@.buckets[self@]),
                    refs: old(proc)@.refs.insert(nr, self@),
                    ..old(proc)@
                })
                &&& r is Ok && !old(proc)@.buckets.contains_key(self@) ==> final(proc)@
                    == (ProcessV { refs: old(proc)@.refs.insert(nr, self@), ..old(proc)@ })
                &&& r is Err ==> final(proc)@ == old(proc)@
            }),
    {
        let rid = track.new_rid();
        match proc.create_reference(self.bid, rid) {
            Ok(()) => Ok(BucketRef { rid }),
            Err(e) => Err(e),
        }
    }

    /// The bucket's balance.
    pub fn amount(&self, proc: &Process) -> (r: Result<Amount, RuntimeError>)
        requires
            proc.wf(),
        ensures
            r is Ok <==> proc@.buckets.contains_key(self@),
            r is Ok ==> r->Ok_0 as nat == proc@.buckets[self@].amount,
            r is Err ==> r == Err::<Amount, RuntimeError>(RuntimeError::BucketNotFound(self@)),
    {
        match proc.get_bucket(self.bid) {
            Some(b) => Ok(b.amount()),
            None => Err(RuntimeError::BucketNotFound(self.bid)),
        }
    }

    /// The resource definition of the bucket's contents.
    pub fn resource_def(&self, proc: &Process) -> (r: Result<Address, RuntimeError>)
        requires
            proc.wf(),
        ensures
            r is Ok <==> proc@.buckets.contains_key(self@),
            r is Ok ==> r->Ok_0 == proc@.buckets[self@].resource,
            r is Err ==> r == Err::<Address, RuntimeError>(RuntimeError::BucketNotFound(self@)),
    {
        match proc.get_bucket(self.bid) {
            Some(b) => Ok(b.resource()),
            None => Err(RuntimeError::BucketNotFound(self.bid)),
        }
    }

    /// Destroys the bucket and decreases its resource's recorded supply.
    /// Every check happens before any value moves: a failure leaves the
    /// bucket owned by the frame and the definition untouched.
    pub fn burn<L: Ledger>(self, proc: &mut Process, track: &mut Track<L>) -> (r: Result<
        (),
        RuntimeError,
    >)
        requires
            old(proc).wf(),
            old(track).wf(),
        ensures
            final(proc).wf(),
            final(track).wf(),
            r is Err ==> final(proc)@ == old(proc)@,
            !old(proc)@.buckets.contains_key(self@) ==> r is Err && final(track)@ == old(track)@,
            old(proc)@.buckets.contains_key(self@) ==> {
                let b = old(proc)@.buckets[self@];
                let found = lookup(
                    old(track)@.resource_defs,
                    old(track)@.ledger.resource_defs,
                    b.resource,
                );
                let cached = cache_after(
                    old(track)@.resource_defs,
                    old(track)@.ledger.resource_defs,
                    b.resource,
                );
                match found {
                    None => r == Err::<(), RuntimeError>(
                        RuntimeError::ResourceDefNotFound(b.resource),
                    ) && final(track)@ == old(track)@,
                    Some(d) => {
                        let burnable = d.address == b.resource && match d.supply {
                            SupplyV::Fixed(_) => false,
                            SupplyV::Fungible(t) => b.amount <= t,
                            SupplyV::NonFungible { total, .. } => b.amount <= total,
                        };
                        let newsupply = match d.supply {
                            SupplyV::Fixed(t) => SupplyV::Fixed(t),
                            SupplyV::Fungible(t) => SupplyV::Fungible((t - b.amount) as nat),
                            SupplyV::NonFungible { total, next_id } => SupplyV::NonFungible {
                                total: (total - b.amount) as nat,
                                next_id,
                            },
                        };
                        if burnable {
                            &&& r is Ok
                            &&& final(proc)@ == (ProcessV {
                                buckets: old(proc)@.buckets.remove(self@),
                                ..old(proc)@
                            })
                            &&& final(track)@ == (TrackV {
                                resource_defs: cached.insert(
                                    b.resource,
                                    ResourceDefV { supply: newsupply, ..d },
                                ),
                                dirty_resource_defs: old(track)@.dirty_resource_defs.insert(
                                    b.resource,
                                ),
                                ..old(track)@
                            })
                        } else {
                            &&& r is Err
                            &&& final(track)@ == (TrackV {
                                resource_defs: cached.insert(b.resource, d),
                                dirty_resource_defs: old(track)@.dirty_resource_defs.insert(
                                    b.resource,
                                ),
                                ..old(track)@
                            })
                        }
                    },
                }
            },
    {
        let (b_amount, b_resource) = match proc.get_bucket(self.bid) {
            Some(b) => (b.amount(), b.resource()),
            None => {
                return Err(RuntimeError::BucketNotFound(self.bid));
            },
        };
        match track.get_resource_def_mut(b_resource) {
            None => Err(RuntimeError::ResourceDefNotFound(b_resource)),
            Some(d) => {
                let burnable = d.address() == b_resource && match d.supply_info() {
                    Supply::Fixed(_) => false,
                    Supply::Fungible(t) => b_amount <= t,
                    Supply::NonFungible { total, .. } => b_amount <= total,
                };
                if !burnable {
                    return Err(
                        RuntimeError::ResourceDefError(
                            crate::resource_def::ResourceDefError::UnsupportedOperation,
                        ),
                    );
                }
                let bucket = proc.take_bucket(self.bid).unwrap();
                let res = d.burn(bucket);
                proof {
                    assert(res is Ok);
                }
                Ok(())
            },
        }
    }

    /// Whether the bucket is empty.
    pub fn is_empty(&self, proc: &Process) -> (r: Result<bool, RuntimeError>)
        requires
            proc.wf(),
        ensures
            r is Ok <==> proc@.buckets.contains_key(self@),
            r is Ok ==> r->Ok_0 == (proc@.buckets[self@].amount == 0),
    {
        match self.amount(proc) {
            Ok(a) => Ok(a == 0),
            Err(e) => Err(e),
        }
    }
}

/// A non-owning, badge-bearing reference to a locked bucket.
#[derive(Debug, Clone, Copy)]
pub struct BucketRef {
    rid: Rid,
}

impl View for BucketRef {
    type V = Rid;

    closed spec fn view(&self) -> Rid {
        self.rid
    }
}

impl BucketRef {
    /// The id this handle stands for.
    pub fn rid(&self) -> (r: Rid)
        ensures
            r == self@,
    {
        self.rid
    }

    /// A handle for a reference id the frame already holds.
    pub fn from_rid(rid: Rid) -> (r: Self)
        ensures
            r@ == rid,
    {
        Self { rid }
    }

    /// Checks that the referenced bucket holds a nonzero amount of the
    /// given resource, then drops the reference; a failed check reports
    /// unauthorized access and keeps the reference.
    pub fn check(self, resource_def: Address, proc: &mut Process) -> (r: Result<
        (),
        RuntimeError,
    >)
        requires
            old(proc).wf(),
        ensures
            final(proc).wf(),
            !old(proc)@.refs.contains_key(self@) ==> r == Err::<(), RuntimeError>(
                RuntimeError::AccountingError(BucketError::ReferenceCountUnderflow),
            ) && final(proc)@ == old(proc)@,
            old(proc)@.refs.contains_key(self@) && !(old(proc)@.locked[old(
                proc,
            )@.refs[self@]].amount > 0 && old(proc)@.locked[old(proc)@.refs[self@]].resource
                == resource_def) ==> r == Err::<(), RuntimeError>(
                RuntimeError::AccountingError(BucketError::UnauthorizedAccess),
            ) && final(proc)@ == old(proc)@,
            old(proc)@.refs.contains_key(self@) && old(proc)@.locked[old(
                proc,
            )@.refs[self@]].amount > 0 && old(proc)@.locked[old(proc)@.refs[self@]].resource
                == resource_def ==> {
                let bid = old(proc)@.refs[self@];
                let still = exists|rid2: Rid|
                    rid2 != self@ && #[trigger] old(proc)@.refs.contains_key(rid2) && old(
                        proc,
                    )@.refs[rid2] == bid;
                &&& r is Ok
                &&& (still ==> final(proc)@ == (ProcessV {
                    refs: old(proc)@.refs.remove(self@),
                    ..old(proc)@
                }))
                &&& (!still ==> final(proc)@ == (ProcessV {
                    refs: old(proc)@.refs.remove(self@),
                    locked: old(proc)@.locked.remove(bid),
                    buckets: old(proc)@.buckets.insert(bid, old(proc)@.locked[bid]),
                    ..old(proc)@
                }))
            },
    {
        match self.contains(resource_def, proc) {
            Err(e) => Err(e),
            Ok(true) => {
                let res = self.drop(proc);
                proof {
                    assert(res is Ok);
                }
                Ok(())
            },
            Ok(false) => Err(RuntimeError::AccountingError(BucketError::UnauthorizedAccess)),
        }
    }

    /// Whether the referenced bucket holds a nonzero amount of the given
    /// resource.
    pub fn contains(&self, resource_def: Address, proc: &Process) -> (r: Result<
        bool,
        RuntimeError,
    >)
        requires
            proc.wf(),
        ensures
            r is Ok <==> proc@.refs.contains_key(self@),
            r is Ok ==> r->Ok_0 == (proc@.locked[proc@.refs[self@]].amount > 0
                && proc@.locked[proc@.refs[self@]].resource == resource_def),
            r is Err ==> r == Err::<bool, RuntimeError>(
                RuntimeError::AccountingError(BucketError::ReferenceCountUnderflow),
            ),
    {
        match proc.ref_bucket(self.rid) {
            Some(b) => Ok(b.amount() > 0 && b.resource() == resource_def),
            None => Err(RuntimeError::AccountingError(BucketError::ReferenceCountUnderflow)),
        }
    }

    /// The referenced bucket's balance.
    pub fn amount(&self, proc: &Process) -> (r: Result<Amount, RuntimeError>)
        requires
            proc.wf(),
        ensures
            r is Ok <==> proc@.refs.contains_key(self@),
            r is Ok ==> r->Ok_0 as nat == proc@.locked[proc@.refs[self@]].amount,
    {
        match proc.ref_bucket(self.rid) {
            Some(b) => Ok(b.amount()),
            None => Err(RuntimeError::AccountingError(BucketError::ReferenceCountUnderflow)),
        }
    }

    /// The resource definition of the referenced bucket's contents.
    pub fn resource_def(&self, proc: &Process) -> (r: Result<Address, RuntimeError>)
        requires
            proc.wf(),
        ensures
            r is Ok <==> proc@.refs.contains_key(self@),
            r is Ok ==> r->Ok_0 == proc@.locked[proc@.refs[self@]].resource,
    {
        match proc.ref_bucket(self.rid) {
            Some(b) => Ok(b.resource()),
            None => Err(RuntimeError::AccountingError(BucketError::ReferenceCountUnderflow)),
        }
    }

    /// Destroys this reference; the last reference to a bucket unlocks
    /// it.
    pub fn drop(self, proc: &mut Process) -> (r: Result<(), RuntimeError>)
        requires
            old(proc).wf(),
        ensures
            final(proc).wf(),
            !old(proc)@.refs.contains_key(self@) ==> r == Err::<(), RuntimeError>(
                RuntimeError::AccountingError(BucketError::ReferenceCountUnderflow),
            ) && final(proc)@ == old(proc)@,
            old(proc)@.refs.contains_key(self@) ==> {
                let bid = old(proc)@.refs[self@];
                let still = exists|rid2: Rid|
                    rid2 != self@ && #[trigger] old(proc)@.refs.contains_key(rid2) && old(
                        proc,
                    )@.refs[rid2] == bid;
                &&& r is Ok
                &&& (still ==> final(proc)@ == (ProcessV {
                    refs: old(proc)@.refs.remove(self@),
                    ..old(proc)@
                }))
                &&& (!still ==> final(proc)@ == (ProcessV {
                    refs: old(proc)@.refs.remove(self@),
                    locked: old(proc)@.locked.remove(bid),
                    buckets: old(proc)@.buckets.insert(bid, old(proc)@.locked[bid]),
                    ..old(proc)@
                }))
            },
    {
        proc.drop_reference(self.rid)
    }

    /// Whether the referenced bucket is empty.
    pub fn is_empty(&self, proc: &Process) -> (r: Result<bool, RuntimeError>)
        requires
            proc.wf(),
        ensures
            r is Ok <==> proc@.refs.contains_key(self@),
            r is Ok ==> r->Ok_0 == (proc@.locked[proc@.refs[self@]].amount == 0),
    {
        match self.amount(proc) {
            Ok(a) => Ok(a == 0),
            Err(e) => Err(e),
        }
    }
}

/// A builder assembling the metadata for a new resource.
#[derive(Debug)]
pub struct ResourceBuilder {
    metadata: Vec<(String, String)>,
}

impl View for ResourceBuilder {
    type V = Map<Seq<char>, Seq<char>>;

    closed spec fn view(&self) -> Map<Seq<char>, Seq<char>> {
        metadata_view(self.metadata@)
    }
}

impl ResourceBuilder {
    /// A builder with no metadata yet.
    pub fn new() -> (r: Self)
        ensures
            r@ == Map::<Seq<char>, Seq<char>>::empty(),
    {
        Self { metadata: Vec::new() }
    }

    /// Adds one metadata attribute, overwriting any earlier value stored
    /// under the same name.
    pub fn metadata(&mut self, name: String, value: String) -> (r: &mut Self)
        ensures
            (*r)@ == old(self)@.insert(name@, value@),
            *final(self) == *final(r),
    {
        let ghost orig = self.metadata@;
        self.metadata.push((name, value));
        proof {
            assert(self.metadata@.drop_last() =~= orig);
        }
        self
    }

    /// Creates a resource with mutable supply, mintable by the given
    /// authority, and registers its definition.
    pub fn create_mutable<L: Ledger>(&self, minter: Address, track: &mut Track<L>) -> (r: Address)
        requires
            old(track).wf(),
            old(track)@.next_id < u32::MAX,
        ensures
            final(track).wf(),
            r == Address::ResourceDef(
                crate::types::EntityId {
                    hash: old(track)@.tx_hash,
                    index: old(track)@.next_id,
                },
            ),
            final(track)@ == (TrackV {
                next_id: (old(track)@.next_id + 1) as u32,
                new_entities: old(track)@.new_entities.push(r),
                resource_defs: old(track)@.resource_defs.insert(
                    r,
                    ResourceDefV {
                        address: r,
                        metadata: self@,
                        minter: Some(minter),
                        supply: SupplyV::Fungible(0),
                    },
                ),
                dirty_resource_defs: old(track)@.dirty_resource_defs.insert(r),
                ..old(track)@
            }),
    {
        let address = track.new_resource_def_address();
        let def = ResourceDef::new_mutable(address, copy_metadata(&self.metadata), minter);
        track.put_resource_def(address, def);
        address
    }

    /// Creates a resource with fixed supply: registers its definition and
    /// hands the whole supply to the acting frame as a fresh bucket.
    pub fn create_fixed<L: Ledger>(
        &self,
        supply: Amount,
        proc: &mut Process,
        track: &mut Track<L>,
    ) -> (r: Result<Bucket, RuntimeError>)
        requires
            old(proc).wf(),
            old(track).wf(),
            old(track)@.next_id + 1 < u32::MAX,
        ensures
            final(proc).wf(),
            final(track).wf(),
            ({
                let addr = Address::ResourceDef(
                    crate::types::EntityId {
                        hash: old(track)@.tx_hash,
                        index: old(track)@.next_id,
                    },
                );
                let nb = Bid((old(track)@.next_id + 1) as u32);
                let with_def = TrackV {
                    next_id: (old(track)@.next_id + 2) as u32,
                    new_entities: old(track)@.new_entities.push(addr),
                    resource_defs: old(track)@.resource_defs.insert(
                        addr,
                        ResourceDefV {
                            address: addr,
                            metadata: self@,
                            minter: None,
                            supply: SupplyV::Fixed(supply as nat),
                        },
                    ),
                    dirty_resource_defs: old(track)@.dirty_resource_defs.insert(addr),
                    ..old(track)@
                };
                &&& final(track)@ == with_def
                &&& (r is Ok <==> !(old(proc)@.buckets.contains_key(nb)
                    || old(proc)@.locked.contains_key(nb)))
                &&& r is Ok ==> r->Ok_0@ == nb && final(proc)@ == (ProcessV {
                    buckets: old(proc)@.buckets.insert(
                        nb,
                        bucket::BucketV { amount: supply as nat, resource: addr },
                    ),
                    ..old(proc)@
                })
                &&& r is Err ==> final(proc)@ == old(proc)@
            }),
    {
        let address = track.new_resource_def_address();
        let def = ResourceDef::new_fixed(address, copy_metadata(&self.metadata), supply);
        track.put_resource_def(address, def);
        let bid = track.new_bid();
        match proc.receive_bucket(bid, bucket::Bucket::new(supply, address)) {
            Ok(()) => Ok(Bucket { bid }),
            Err(e) => Err(e),
        }
    }
}

impl Default for ResourceBuilder {
    fn default() -> (r: Self)
        ensures
            r@ == Map::<Seq<char>, Seq<char>>::empty(),
    {
        Self::new()
    }
}

} // verus!
