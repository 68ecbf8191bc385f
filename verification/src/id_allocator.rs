//! Deterministic, collision-free identifier generation.
use vstd::prelude::*;

use crate::types::{Address, Bid, EntityId, Mid, Rid, Vid, H256};

verus! {

/// A counter-backed id generator. For a fixed transaction hash and call
/// order the issued ids are reproducible; every issued id embeds the pair
/// of hash and counter value, so no id is ever issued twice. Counter
/// exhaustion is a fatal condition and is excluded up front.
pub struct IdAllocator {
    count: u32,
}

impl IdAllocator {
    /// How many ids have been issued.
    pub closed spec fn spec_count(&self) -> u32 {
        self.count
    }

    pub fn new() -> (r: Self)
        ensures
            r.spec_count() == 0,
    {
        Self { count: 0 }
    }

    /// Issues a fresh package address derived from the transaction hash
    /// and the current counter value.
    pub fn new_package_address(&mut self, tx_hash: H256) -> (r: Address)
        requires
            old(self).spec_count() < u32::MAX,
        ensures
            r == Address::Package(EntityId { hash: tx_hash, index: old(self).spec_count() }),
            final(self).spec_count() == old(self).spec_count() + 1,
    {
        let index = self.count;
        self.count += 1;
        Address::Package(EntityId { hash: tx_hash, index })
    }

    /// Issues a fresh component address.
    pub fn new_component_address(&mut self, tx_hash: H256) -> (r: Address)
        requires
            old(self).spec_count() < u32::MAX,
        ensures
            r == Address::Component(EntityId { hash: tx_hash, index: old(self).spec_count() }),
            final(self).spec_count() == old(self).spec_count() + 1,
    {
        let index = self.count;
        self.count += 1;
        Address::Component(EntityId { hash: tx_hash, index })
    }

    /// Issues a fresh resource definition address.
    pub fn new_resource_def_address(&mut self, tx_hash: H256) -> (r: Address)
        requires
            old(self).spec_count() < u32::MAX,
        ensures
            r == Address::ResourceDef(EntityId { hash: tx_hash, index: old(self).spec_count() }),
            final(self).spec_count() == old(self).spec_count() + 1,
    {
        let index = self.count;
        self.count += 1;
        Address::ResourceDef(EntityId { hash: tx_hash, index })
    }

    /// Issues a fresh transaction-local bucket id.
    pub fn new_bid(&mut self) -> (r: Bid)
        requires
            old(self).spec_count() < u32::MAX,
        ensures
            r == Bid(old(self).spec_count()),
            final(self).spec_count() == old(self).spec_count() + 1,
    {
        let index = self.count;
        self.count += 1;
        Bid(index)
    }

    /// Issues a fresh vault id, globally unique across transactions
    /// because it embeds the transaction hash.
    pub fn new_vid(&mut self, tx_hash: H256) -> (r: Vid)
        requires
            old(self).spec_count() < u32::MAX,
        ensures
            r == Vid(tx_hash, old(self).spec_count()),
            final(self).spec_count() == old(self).spec_count() + 1,
    {
        let index = self.count;
        self.count += 1;
        Vid(tx_hash, index)
    }

    /// Issues a fresh transaction-local bucket reference id.
    pub fn new_rid(&mut self) -> (r: Rid)
        requires
            old(self).spec_count() < u32::MAX,
        ensures
            r == Rid(old(self).spec_count()),
            final(self).spec_count() == old(self).spec_count() + 1,
    {
        let index = self.count;
        self.count += 1;
        Rid(index)
    }

    /// Issues a fresh lazy-map id, globally unique like a vault id.
    pub fn new_mid(&mut self, tx_hash: H256) -> (r: Mid)
        requires
            old(self).spec_count() < u32::MAX,
        ensures
            r == Mid(tx_hash, old(self).spec_count()),
            final(self).spec_count() == old(self).spec_count() + 1,
    {
        let index = self.count;
        self.count += 1;
        Mid(tx_hash, index)
    }
}

/// Law: no (kind, id) pair is ever issued twice. Every issued id embeds
/// the pair of transaction hash and counter value at the time of issue;
/// within one transaction the counter strictly increases, and distinct
/// transactions have distinct hashes, so the embedded pairs — and with
/// them the ids of every kind — always differ.
pub proof fn lemma_ids_never_reissued(h1: H256, c1: u32, h2: H256, c2: u32)
    requires
        h1 != h2 || c1 != c2,
    ensures
        Vid(h1, c1) != Vid(h2, c2),
        Mid(h1, c1) != Mid(h2, c2),
        Address::Package(EntityId { hash: h1, index: c1 }) != Address::Package(
            EntityId { hash: h2, index: c2 },
        ),
        Address::Component(EntityId { hash: h1, index: c1 }) != Address::Component(
            EntityId { hash: h2, index: c2 },
        ),
        Address::ResourceDef(EntityId { hash: h1, index: c1 }) != Address::ResourceDef(
            EntityId { hash: h2, index: c2 },
        ),
{
}

} // verus!
