//! The per-transaction caching and dirty-tracking overlay in front of the
//! durable ledger.
//!
//! A `get` serves from the cache, loading from the ledger once on a miss;
//! a `get_mut` does the same and additionally marks the entity dirty; a
//! `put` inserts and marks dirty. `commit` writes every dirtied entity,
//! and only those, back to the ledger. Until then the ledger is never
//! touched, so a transaction abort is simply a commit that never happens.
use vstd::prelude::*;

use crate::blueprint::Blueprint;
use crate::component::{Component, ComponentV, LazyMap};
use crate::id_allocator::IdAllocator;
use crate::ledger::{Ledger, LedgerV};
use crate::resource_def::{ResourceDef, ResourceDefV};
use crate::process::Process;
use crate::module_cache::{
    clone_module, lru_contents, module_cache_get, module_cache_put, new_module_cache,
    parse_module, wasm_valid, ModuleCache,
};
use crate::store::{Duplicable, KvStore};
use crate::types::{Address, Bid, Level, Mid, Rid, Vid, H256};
use crate::vault::{Vault, VaultV};

verus! {

/// How many parsed modules the per-transaction code cache keeps.
pub const CODE_CACHE_CAPACITY: usize = 1024;

/// The model of a transaction in flight: the ledger below, the per-kind
/// caches and dirty sets above, and the transaction's own bookkeeping.
#[verifier::ext_equal]
pub struct TrackV {
    pub ledger: LedgerV,
    pub current_epoch: u64,
    pub tx_hash: H256,
    pub next_id: u32,
    pub logs: Seq<(Level, Seq<char>)>,
    pub packages: Map<Address, Seq<u8>>,
    pub components: Map<Address, ComponentV>,
    pub resource_defs: Map<Address, ResourceDefV>,
    pub lazy_maps: Map<Mid, Map<Seq<u8>, Seq<u8>>>,
    pub vaults: Map<Vid, VaultV>,
    pub dirty_packages: Set<Address>,
    pub dirty_components: Set<Address>,
    pub dirty_resource_defs: Set<Address>,
    pub dirty_lazy_maps: Set<Mid>,
    pub dirty_vaults: Set<Vid>,
    pub new_entities: Seq<Address>,
    pub modules: Map<Address, wasmi::Module>,
}

/// What a cached read yields: the cache wins, then the base store.
pub open spec fn lookup<K, T>(cache: Map<K, T>, base: Map<K, T>, k: K) -> Option<T> {
    if cache.contains_key(k) {
        Some(cache[k])
    } else if base.contains_key(k) {
        Some(base[k])
    } else {
        None
    }
}

/// The cache after a read: unchanged on a hit or a miss of both stores,
/// extended by the loaded entry otherwise.
pub open spec fn cache_after<K, T>(cache: Map<K, T>, base: Map<K, T>, k: K) -> Map<K, T> {
    if cache.contains_key(k) || !base.contains_key(k) {
        cache
    } else {
        cache.insert(k, base[k])
    }
}

/// The base store after a commit: overwritten with the cached value on
/// exactly the dirty keys, untouched everywhere else.
pub open spec fn write_back<K, T>(base: Map<K, T>, cache: Map<K, T>, dirty: Set<K>) -> Map<K, T> {
    Map::new(
        |k: K| base.contains_key(k) || (dirty.contains(k) && cache.contains_key(k)),
        |k: K|
            if dirty.contains(k) && cache.contains_key(k) {
                cache[k]
            } else {
                base[k]
            },
    )
}

/// The models of a log list.
pub open spec fn logs_view(s: Seq<(Level, String)>) -> Seq<(Level, Seq<char>)> {
    s.map_values(|p: (Level, String)| (p.0, p.1@))
}

/// Law: a commit writes exactly the dirtied entities. A key never marked
/// dirty keeps its base binding — present or absent — and every dirtied,
/// cached key ends up bound to its cached value.
pub proof fn lemma_commit_writes_exactly_dirty<K, T>(base: Map<K, T>, cache: Map<K, T>, dirty: Set<
    K,
>)
    ensures
        forall|k: K|
            !dirty.contains(k) ==> (#[trigger] write_back(base, cache, dirty).contains_key(k)
                <==> base.contains_key(k)) && (base.contains_key(k) ==> write_back(
                base,
                cache,
                dirty,
            )[k] == base[k]),
        forall|k: K|
            dirty.contains(k) && cache.contains_key(k) ==> #[trigger] write_back(
                base,
                cache,
                dirty,
            ).contains_key(k) && write_back(base, cache, dirty)[k] == cache[k],
{
}

/// An abstraction of transaction execution state: the facade of ledger
/// state, tracking all temporary updates until `commit` is called.
pub struct Track<L: Ledger> {
    ledger: L,
    current_epoch: u64,
    tx_hash: H256,
    id_alloc: IdAllocator,
    logs: Vec<(Level, String)>,
    packages: KvStore<Address, Blueprint>,
    components: KvStore<Address, Component>,
    resource_defs: KvStore<Address, ResourceDef>,
    lazy_maps: KvStore<Mid, LazyMap>,
    vaults: KvStore<Vid, Vault>,
    updated_packages: Vec<Address>,
    updated_components: Vec<Address>,
    updated_resource_defs: Vec<Address>,
    updated_lazy_maps: Vec<Mid>,
    updated_vaults: Vec<Vid>,
    new_entities: Vec<Address>,
    code_cache: ModuleCache,
}

impl<L: Ledger> View for Track<L> {
    type V = TrackV;

    closed spec fn view(&self) -> TrackV {
        TrackV {
            ledger: self.ledger.model(),
            current_epoch: self.current_epoch,
            tx_hash: self.tx_hash,
            next_id: self.id_alloc.spec_count(),
            logs: logs_view(self.logs@),
            packages: self.packages@,
            components: self.components@,
            resource_defs: self.resource_defs@,
            lazy_maps: self.lazy_maps@,
            vaults: self.vaults@,
            dirty_packages: self.updated_packages@.to_set(),
            dirty_components: self.updated_components@.to_set(),
            dirty_resource_defs: self.updated_resource_defs@.to_set(),
            dirty_lazy_maps: self.updated_lazy_maps@.to_set(),
            dirty_vaults: self.updated_vaults@.to_set(),
            new_entities: self.new_entities@,
            modules: lru_contents(self.code_cache),
        }
    }
}

impl<L: Ledger> Track<L> {
    /// The overlay's internal well-formedness: the caches are sound
    /// stores and every dirtied key is cached. Constructors establish it
    /// and every method preserves it.
    pub closed spec fn wf(&self) -> bool {
        &&& self.packages.wf()
        &&& self.components.wf()
        &&& self.resource_defs.wf()
        &&& self.lazy_maps.wf()
        &&& self.vaults.wf()
        &&& forall|i: int|
            0 <= i < self.updated_packages@.len() ==> self.packages@.contains_key(
                #[trigger] self.updated_packages@[i],
            )
        &&& forall|i: int|
            0 <= i < self.updated_components@.len() ==> self.components@.contains_key(
                #[trigger] self.updated_components@[i],
            )
        &&& forall|i: int|
            0 <= i < self.updated_resource_defs@.len() ==> self.resource_defs@.contains_key(
                #[trigger] self.updated_resource_defs@[i],
            )
        &&& forall|i: int|
            0 <= i < self.updated_lazy_maps@.len() ==> self.lazy_maps@.contains_key(
                #[trigger] self.updated_lazy_maps@[i],
            )
        &&& forall|i: int|
            0 <= i < self.updated_vaults@.len() ==> self.vaults@.contains_key(
                #[trigger] self.updated_vaults@[i],
            )
    }

    /// A fresh overlay over the given ledger for one transaction.
    pub fn new(ledger: L, current_epoch: u64, tx_hash: H256) -> (r: Self)
        ensures
            r.wf(),
            r@ == (TrackV {
                ledger: ledger.model(),
                current_epoch,
                tx_hash,
                next_id: 0,
                logs: Seq::empty(),
                packages: Map::empty(),
                components: Map::empty(),
                resource_defs: Map::empty(),
                lazy_maps: Map::empty(),
                vaults: Map::empty(),
                dirty_packages: Set::empty(),
                dirty_components: Set::empty(),
                dirty_resource_defs: Set::empty(),
                dirty_lazy_maps: Set::empty(),
                dirty_vaults: Set::empty(),
                new_entities: Seq::empty(),
                modules: Map::empty(),
            }),
    {
        let r = Self {
            ledger,
            current_epoch,
            tx_hash,
            id_alloc: IdAllocator::new(),
            logs: Vec::new(),
            packages: KvStore::new(),
            components: KvStore::new(),
            resource_defs: KvStore::new(),
            lazy_maps: KvStore::new(),
            vaults: KvStore::new(),
            updated_packages: Vec::new(),
            updated_components: Vec::new(),
            updated_resource_defs: Vec::new(),
            updated_lazy_maps: Vec::new(),
            updated_vaults: Vec::new(),
            new_entities: Vec::new(),
            code_cache: new_module_cache(CODE_CACHE_CAPACITY),
        };
        proof {
            assert(logs_view(r.logs@) =~= Seq::<(Level, Seq<char>)>::empty());
            assert(r.updated_packages@.to_set() =~= Set::<Address>::empty());
            assert(r.updated_components@.to_set() =~= Set::<Address>::empty());
            assert(r.updated_resource_defs@.to_set() =~= Set::<Address>::empty());
            assert(r.updated_lazy_maps@.to_set() =~= Set::<Mid>::empty());
            assert(r.updated_vaults@.to_set() =~= Set::<Vid>::empty());
        }
        r
    }

    /// Starts a root call frame for this transaction.
    pub fn start_process(&self, trace: bool) -> (r: Process)
        ensures
            r.wf(),
            r@.depth == 0,
            r@.trace == trace,
            r@.state == crate::process::FrameState::Created,
            r@.buckets == Map::<Bid, crate::bucket::BucketV>::empty(),
            r@.locked == Map::<Bid, crate::bucket::BucketV>::empty(),
            r@.refs == Map::<Rid, Bid>::empty(),
    {
        Process::new(0, trace)
    }

    /// Hands the ledger back. Nothing but `commit` ever writes it, so
    /// taking it back without committing discards the whole transaction.
    pub fn into_ledger(self) -> (r: L)
        ensures
            r.model() == self@.ledger,
    {
        self.ledger
    }

    /// The transaction hash.
    pub fn tx_hash(&self) -> (r: H256)
        ensures
            r == self@.tx_hash,
    {
        self.tx_hash
    }

    /// The current epoch.
    pub fn current_epoch(&self) -> (r: u64)
        ensures
            r == self@.current_epoch,
    {
        self.current_epoch
    }

    /// The logs collected so far.
    pub fn logs(&self) -> (r: &Vec<(Level, String)>)
        ensures
            logs_view(r@) == self@.logs,
    {
        &self.logs
    }

    /// The entities created so far, in allocation order.
    pub fn new_entities(&self) -> (r: &[Address])
        ensures
            r@ == self@.new_entities,
    {
        self.new_entities.as_slice()
    }

    /// Appends a log message.
    pub fn add_log(&mut self, level: Level, message: String)
        requires
            old(self).wf(),
        ensures
            final(self).wf(),
            final(self)@ == (TrackV {
                logs: old(self)@.logs.push((level, message@)),
                ..old(self)@
            }),
    {
        let ghost orig = self.logs@;
        self.logs.push((level, message));
        proof {
            assert(logs_view(self.logs@) =~= logs_view(orig).push((level, message@)));
        }
    }

    /// An immutable read of a package: served from the cache, loaded from
    /// the ledger once on a miss.
    pub fn get_package(&mut self, address: Address) -> (r: Option<&Blueprint>)
        requires
            old(self).wf(),
        ensures
            final(self).wf(),
            r is Some <==> lookup(old(self)@.packages, old(self)@.ledger.packages, address)
                is Some,
            r is Some ==> r->0@ == lookup(
                old(self)@.packages,
                old(self)@.ledger.packages,
                address,
            )->0,
            final(self)@ == (TrackV {
                packages: cache_after(old(self)@.packages, old(self)@.ledger.packages, address),
                ..old(self)@
            }),
    {
        if !self.packages.contains_key(&address) {
            match self.ledger.get_package(address) {
                Some(p) => {
                    self.packages.insert(address, p);
                },
                None => {
                    return None;
                },
            }
        }
        self.packages.get(&address)
    }

    /// A mutable read of a package: like `get_package`, and when the
    /// entity exists it is marked dirty, so `commit` will write back
    /// whatever the caller leaves behind the borrow.
    pub fn get_package_mut(&mut self, address: Address) -> (r: Option<&mut Blueprint>)
        requires
            old(self).wf(),
        ensures
            final(self).wf(),
            r is Some <==> lookup(old(self)@.packages, old(self)@.ledger.packages, address)
                is Some,
            match r {
                Some(m) => {
                    &&& (*m)@ == lookup(
                        old(self)@.packages,
                        old(self)@.ledger.packages,
                        address,
                    )->0
                    &&& final(self)@ == (TrackV {
                        packages: cache_after(
                            old(self)@.packages,
                            old(self)@.ledger.packages,
                            address,
                        ).insert(address, (*final(m))@),
                        dirty_packages: old(self)@.dirty_packages.insert(address),
                        ..old(self)@
                    })
                },
                None => final(self)@ == old(self)@,
            },
    {
        if !self.packages.contains_key(&address) {
            match self.ledger.get_package(address) {
                Some(p) => {
                    self.packages.insert(address, p);
                },
                None => {
                    return None;
                },
            }
        }
        self.updated_packages.push(address);
        proof {
            self.updated_packages@.drop_last().lemma_push_to_set_commute(address);
            assert(self.updated_packages@.drop_last() =~= old(self).updated_packages@);
        }
        self.packages.get_mut(&address)
    }

    /// Inserts a package and marks it dirty.
    pub fn put_package(&mut self, address: Address, package: Blueprint)
        requires
            old(self).wf(),
        ensures
            final(self).wf(),
            final(self)@ == (TrackV {
                packages: old(self)@.packages.insert(address, package@),
                dirty_packages: old(self)@.dirty_packages.insert(address),
                ..old(self)@
            }),
    {
        self.packages.insert(address, package);
        self.updated_packages.push(address);
        proof {
            self.updated_packages@.drop_last().lemma_push_to_set_commute(address);
            assert(self.updated_packages@.drop_last() =~= old(self).updated_packages@);
        }
    }

    /// An immutable read of a component: served from the cache, loaded from
    /// the ledger once on a miss.
    pub fn get_component(&mut self, address: Address) -> (r: Option<&Component>)
        requires
            old(self).wf(),
        ensures
            final(self).wf(),
            r is Some <==> lookup(old(self)@.components, old(self)@.ledger.components, address)
                is Some,
            r is Some ==> r->0@ == lookup(
                old(self)@.components,
                old(self)@.ledger.components,
                address,
            )->0,
            final(self)@ == (TrackV {
                components: cache_after(old(self)@.components, old(self)@.ledger.components, address),
                ..old(self)@
            }),
    {
        if !self.components.contains_key(&address) {
            match self.ledger.get_component(address) {
                Some(p) => {
                    self.components.insert(address, p);
                },
                None => {
                    return None;
                },
            }
        }
        self.components.get(&address)
    }

    /// A mutable read of a component: like `get_component`, and when the
    /// entity exists it is marked dirty, so `commit` will write back
    /// whatever the caller leaves behind the borrow.
    pub fn get_component_mut(&mut self, address: Address) -> (r: Option<&mut Component>)
        requires
            old(self).wf(),
        ensures
            final(self).wf(),
            r is Some <==> lookup(old(self)@.components, old(self)@.ledger.components, address)
                is Some,
            match r {
                Some(m) => {
                    &&& (*m)@ == lookup(
                        old(self)@.components,
                        old(self)@.ledger.components,
                        address,
                    )->0
                    &&& final(self)@ == (TrackV {
                        components: cache_after(
                            old(self)@.components,
                            old(self)@.ledger.components,
                            address,
                        ).insert(address, (*final(m))@),
                        dirty_components: old(self)@.dirty_components.insert(address),
                        ..old(self)@
                    })
                },
                None => final(self)@ == old(self)@,
            },
    {
        if !self.components.contains_key(&address) {
            match self.ledger.get_component(address) {
                Some(p) => {
                    self.components.insert(address, p);
                },
                None => {
                    return None;
                },
            }
        }
        self.updated_components.push(address);
        proof {
            self.updated_components@.drop_last().lemma_push_to_set_commute(address);
            assert(self.updated_components@.drop_last() =~= old(self).updated_components@);
        }
        self.components.get_mut(&address)
    }

    /// Inserts a component and marks it dirty.
    pub fn put_component(&mut self, address: Address, component: Component)
        requires
            old(self).wf(),
        ensures
            final(self).wf(),
            final(self)@ == (TrackV {
                components: old(self)@.components.insert(address, component@),
                dirty_components: old(self)@.dirty_components.insert(address),
                ..old(self)@
            }),
    {
        self.components.insert(address, component);
        self.updated_components.push(address);
        proof {
            self.updated_components@.drop_last().lemma_push_to_set_commute(address);
            assert(self.updated_components@.drop_last() =~= old(self).updated_components@);
        }
    }

    /// An immutable read of a resource definition: served from the cache, loaded from
    /// the ledger once on a miss.
    pub fn get_resource_def(&mut self, address: Address) -> (r: Option<&ResourceDef>)
        requires
            old(self).wf(),
        ensures
            final(self).wf(),
            r is Some <==> lookup(old(self)@.resource_defs, old(self)@.ledger.resource_defs, address)
                is Some,
            r is Some ==> r->0@ == lookup(
                old(self)@.resource_defs,
                old(self)@.ledger.resource_defs,
                address,
            )->0,
            final(self)@ == (TrackV {
                resource_defs: cache_after(old(self)@.resource_defs, old(self)@.ledger.resource_defs, address),
                ..old(self)@
            }),
    {
        if !self.resource_defs.contains_key(&address) {
            match self.ledger.get_resource_def(address) {
                Some(p) => {
                    self.resource_defs.insert(address, p);
                },
                None => {
                    return None;
                },
            }
        }
        self.resource_defs.get(&address)
    }

    /// A mutable read of a resource definition: like `get_resource_def`, and when the
    /// entity exists it is marked dirty, so `commit` will write back
    /// whatever the caller leaves behind the borrow.
    pub fn get_resource_def_mut(&mut self, address: Address) -> (r: Option<&mut ResourceDef>)
        requires
            old(self).wf(),
        ensures
            final(self).wf(),
            r is Some <==> lookup(old(self)@.resource_defs, old(self)@.ledger.resource_defs, address)
                is Some,
            match r {
                Some(m) => {
                    &&& (*m)@ == lookup(
                        old(self)@.resource_defs,
                        old(self)@.ledger.resource_defs,
                        address,
                    )->0
                    &&& final(self)@ == (TrackV {
                        resource_defs: cache_after(
                            old(self)@.resource_defs,
                            old(self)@.ledger.resource_defs,
                            address,
                        ).insert(address, (*final(m))@),
                        dirty_resource_defs: old(self)@.dirty_resource_defs.insert(address),
                        ..old(self)@
                    })
                },
                None => final(self)@ == old(self)@,
            },
    {
        if !self.resource_defs.contains_key(&address) {
            match self.ledger.get_resource_def(address) {
                Some(p) => {
                    self.resource_defs.insert(address, p);
                },
                None => {
                    return None;
                },
            }
        }
        self.updated_resource_defs.push(address);
        proof {
            self.updated_resource_defs@.drop_last().lemma_push_to_set_commute(address);
            assert(self.updated_resource_defs@.drop_last() =~= old(self).updated_resource_defs@);
        }
        self.resource_defs.get_mut(&address)
    }

    /// Inserts a resource definition and marks it dirty.
    pub fn put_resource_def(&mut self, address: Address, resource_def: ResourceDef)
        requires
            old(self).wf(),
        ensures
            final(self).wf(),
            final(self)@ == (TrackV {
                resource_defs: old(self)@.resource_defs.insert(address, resource_def@),
                dirty_resource_defs: old(self)@.dirty_resource_defs.insert(address),
                ..old(self)@
            }),
    {
        self.resource_defs.insert(address, resource_def);
        self.updated_resource_defs.push(address);
        proof {
            self.updated_resource_defs@.drop_last().lemma_push_to_set_commute(address);
            assert(self.updated_resource_defs@.drop_last() =~= old(self).updated_resource_defs@);
        }
    }

    /// An immutable read of a lazy map: served from the cache, loaded from
    /// the ledger once on a miss.
    pub fn get_lazy_map(&mut self, mid: Mid) -> (r: Option<&LazyMap>)
        requires
            old(self).wf(),
        ensures
            final(self).wf(),
            r is Some <==> lookup(old(self)@.lazy_maps, old(self)@.ledger.lazy_maps, mid)
                is Some,
            r is Some ==> r->0@ == lookup(
                old(self)@.lazy_maps,
                old(self)@.ledger.lazy_maps,
                mid,
            )->0,
            final(self)@ == (TrackV {
                lazy_maps: cache_after(old(self)@.lazy_maps, old(self)@.ledger.lazy_maps, mid),
                ..old(self)@
            }),
    {
        if !self.lazy_maps.contains_key(&mid) {
            match self.ledger.get_lazy_map(mid) {
                Some(p) => {
                    self.lazy_maps.insert(mid, p);
                },
                None => {
                    return None;
                },
            }
        }
        self.lazy_maps.get(&mid)
    }

    /// A mutable read of a lazy map: like `get_lazy_map`, and when the
    /// entity exists it is marked dirty, so `commit` will write back
    /// whatever the caller leaves behind the borrow.
    pub fn get_lazy_map_mut(&mut self, mid: Mid) -> (r: Option<&mut LazyMap>)
        requires
            old(self).wf(),
        ensures
            final(self).wf(),
            r is Some <==> lookup(old(self)@.lazy_maps, old(self)@.ledger.lazy_maps, mid)
                is Some,
            match r {
                Some(m) => {
                    &&& (*m)@ == lookup(
                        old(self)@.lazy_maps,
                        old(self)@.ledger.lazy_maps,
                        mid,
                    )->0
                    &&& final(self)@ == (TrackV {
                        lazy_maps: cache_after(
                            old(self)@.lazy_maps,
                            old(self)@.ledger.lazy_maps,
                            mid,
                        ).insert(mid, (*final(m))@),
                        dirty_lazy_maps: old(self)@.dirty_lazy_maps.insert(mid),
                        ..old(self)@
                    })
                },
                None => final(self)@ == old(self)@,
            },
    {
        if !self.lazy_maps.contains_key(&mid) {
            match self.ledger.get_lazy_map(mid) {
                Some(p) => {
                    self.lazy_maps.insert(mid, p);
                },
                None => {
                    return None;
                },
            }
        }
        self.updated_lazy_maps.push(mid);
        proof {
            self.updated_lazy_maps@.drop_last().lemma_push_to_set_commute(mid);
            assert(self.updated_lazy_maps@.drop_last() =~= old(self).updated_lazy_maps@);
        }
        self.lazy_maps.get_mut(&mid)
    }

    /// Inserts a lazy map and marks it dirty.
    pub fn put_lazy_map(&mut self, mid: Mid, lazy_map: LazyMap)
        requires
            old(self).wf(),
        ensures
            final(self).wf(),
            final(self)@ == (TrackV {
                lazy_maps: old(self)@.lazy_maps.insert(mid, lazy_map@),
                dirty_lazy_maps: old(self)@.dirty_lazy_maps.insert(mid),
                ..old(self)@
            }),
    {
        self.lazy_maps.insert(mid, lazy_map);
        self.updated_lazy_maps.push(mid);
        proof {
            self.updated_lazy_maps@.drop_last().lemma_push_to_set_commute(mid);
            assert(self.updated_lazy_maps@.drop_last() =~= old(self).updated_lazy_maps@);
        }
    }

    /// An immutable read of a vault: served from the cache, loaded from
    /// the ledger once on a miss.
    pub fn get_vault(&mut self, vid: Vid) -> (r: Option<&Vault>)
        requires
            old(self).wf(),
        ensures
            final(self).wf(),
            r is Some <==> lookup(old(self)@.vaults, old(self)@.ledger.vaults, vid)
                is Some,
            r is Some ==> r->0@ == lookup(
                old(self)@.vaults,
                old(self)@.ledger.vaults,
                vid,
            )->0,
            final(self)@ == (TrackV {
                vaults: cache_after(old(self)@.vaults, old(self)@.ledger.vaults, vid),
                ..old(self)@
            }),
    {
        if !self.vaults.contains_key(&vid) {
            match self.ledger.get_vault(vid) {
                Some(p) => {
                    self.vaults.insert(vid, p);
                },
                None => {
                    return None;
                },
            }
        }
        self.vaults.get(&vid)
    }

    /// A mutable read of a vault: like `get_vault`, and when the
    /// entity exists it is marked dirty, so `commit` will write back
    /// whatever the caller leaves behind the borrow.
    pub fn get_vault_mut(&mut self, vid: Vid) -> (r: Option<&mut Vault>)
        requires
            old(self).wf(),
        ensures
            final(self).wf(),
            r is Some <==> lookup(old(self)@.vaults, old(self)@.ledger.vaults, vid)
                is Some,
            match r {
                Some(m) => {
                    &&& (*m)@ == lookup(
                        old(self)@.vaults,
                        old(self)@.ledger.vaults,
                        vid,
                    )->0
                    &&& final(self)@ == (TrackV {
                        vaults: cache_after(
                            old(self)@.vaults,
                            old(self)@.ledger.vaults,
                            vid,
                        ).insert(vid, (*final(m))@),
                        dirty_vaults: old(self)@.dirty_vaults.insert(vid),
                        ..old(self)@
                    })
                },
                None => final(self)@ == old(self)@,
            },
    {
        if !self.vaults.contains_key(&vid) {
            match self.ledger.get_vault(vid) {
                Some(p) => {
                    self.vaults.insert(vid, p);
                },
                None => {
                    return None;
                },
            }
        }
        self.updated_vaults.push(vid);
        proof {
            self.updated_vaults@.drop_last().lemma_push_to_set_commute(vid);
            assert(self.updated_vaults@.drop_last() =~= old(self).updated_vaults@);
        }
        self.vaults.get_mut(&vid)
    }

    /// Inserts a vault and marks it dirty.
    pub fn put_vault(&mut self, vid: Vid, vault: Vault)
        requires
            old(self).wf(),
        ensures
            final(self).wf(),
            final(self)@ == (TrackV {
                vaults: old(self)@.vaults.insert(vid, vault@),
                dirty_vaults: old(self)@.dirty_vaults.insert(vid),
                ..old(self)@
            }),
    {
        self.vaults.insert(vid, vault);
        self.updated_vaults.push(vid);
        proof {
            self.updated_vaults@.drop_last().lemma_push_to_set_commute(vid);
            assert(self.updated_vaults@.drop_last() =~= old(self).updated_vaults@);
        }
    }

    /// Issues a fresh package address and records it as a new entity.
    pub fn new_package_address(&mut self) -> (r: Address)
        requires
            old(self).wf(),
            old(self)@.next_id < u32::MAX,
        ensures
            final(self).wf(),
            r == Address::Package(
                crate::types::EntityId { hash: old(self)@.tx_hash, index: old(self)@.next_id },
            ),
            final(self)@ == (TrackV {
                next_id: (old(self)@.next_id + 1) as u32,
                new_entities: old(self)@.new_entities.push(r),
                ..old(self)@
            }),
    {
        let hash = self.tx_hash;
        let address = self.id_alloc.new_package_address(hash);
        self.new_entities.push(address);
        address
    }

    /// Issues a fresh component address and records it as a new entity.
    pub fn new_component_address(&mut self) -> (r: Address)
        requires
            old(self).wf(),
            old(self)@.next_id < u32::MAX,
        ensures
            final(self).wf(),
            r == Address::Component(
                crate::types::EntityId { hash: old(self)@.tx_hash, index: old(self)@.next_id },
            ),
            final(self)@ == (TrackV {
                next_id: (old(self)@.next_id + 1) as u32,
                new_entities: old(self)@.new_entities.push(r),
                ..old(self)@
            }),
    {
        let hash = self.tx_hash;
        let address = self.id_alloc.new_component_address(hash);
        self.new_entities.push(address);
        address
    }

    /// Issues a fresh resource definition address and records it as a new
    /// entity.
    pub fn new_resource_def_address(&mut self) -> (r: Address)
        requires
            old(self).wf(),
            old(self)@.next_id < u32::MAX,
        ensures
            final(self).wf(),
            r == Address::ResourceDef(
                crate::types::EntityId { hash: old(self)@.tx_hash, index: old(self)@.next_id },
            ),
            final(self)@ == (TrackV {
                next_id: (old(self)@.next_id + 1) as u32,
                new_entities: old(self)@.new_entities.push(r),
                ..old(self)@
            }),
    {
        let hash = self.tx_hash;
        let address = self.id_alloc.new_resource_def_address(hash);
        self.new_entities.push(address);
        address
    }

    /// Issues a fresh transaction-local bucket id.
    pub fn new_bid(&mut self) -> (r: Bid)
        requires
            old(self).wf(),
            old(self)@.next_id < u32::MAX,
        ensures
            final(self).wf(),
            r == Bid(old(self)@.next_id),
            final(self)@ == (TrackV { next_id: (old(self)@.next_id + 1) as u32, ..old(self)@ }),
    {
        self.id_alloc.new_bid()
    }

    /// Issues a fresh vault id.
    pub fn new_vid(&mut self) -> (r: Vid)
        requires
            old(self).wf(),
            old(self)@.next_id < u32::MAX,
        ensures
            final(self).wf(),
            r == Vid(old(self)@.tx_hash, old(self)@.next_id),
            final(self)@ == (TrackV { next_id: (old(self)@.next_id + 1) as u32, ..old(self)@ }),
    {
        let hash = self.tx_hash;
        self.id_alloc.new_vid(hash)
    }

    /// Issues a fresh bucket reference id.
    pub fn new_rid(&mut self) -> (r: Rid)
        requires
            old(self).wf(),
            old(self)@.next_id < u32::MAX,
        ensures
            final(self).wf(),
            r == Rid(old(self)@.next_id),
            final(self)@ == (TrackV { next_id: (old(self)@.next_id + 1) as u32, ..old(self)@ }),
    {
        self.id_alloc.new_rid()
    }

    /// Issues a fresh lazy-map id.
    pub fn new_mid(&mut self) -> (r: Mid)
        requires
            old(self).wf(),
            old(self)@.next_id < u32::MAX,
        ensures
            final(self).wf(),
            r == Mid(old(self)@.tx_hash, old(self)@.next_id),
            final(self)@ == (TrackV { next_id: (old(self)@.next_id + 1) as u32, ..old(self)@ }),
    {
        let hash = self.tx_hash;
        self.id_alloc.new_mid(hash)
    }


    /// Loads the parsed bytecode module for a published package, serving
    /// repeated loads from a bounded least-recently-used cache. The cache
    /// only amortizes parsing: a module comes back exactly when the
    /// package exists and is either already cached or holds valid
    /// bytecode; whether one comes back never depends on what the cache
    /// held beyond that.
    pub fn load_module(&mut self, address: Address) -> (r: Option<wasmi::Module>)
        requires
            old(self).wf(),
        ensures
            final(self).wf(),
            r is Some <==> (lookup(old(self)@.packages, old(self)@.ledger.packages, address)
                matches Some(c) && (old(self)@.modules.contains_key(address) || wasm_valid(c))),
            final(self)@ == (TrackV {
                packages: cache_after(old(self)@.packages, old(self)@.ledger.packages, address),
                modules: final(self)@.modules,
                ..old(self)@
            }),
            forall|a: Address| #[trigger]
                final(self)@.modules.contains_key(a) ==> a == address
                    || old(self)@.modules.contains_key(a),
            forall|a: Address|
                a != address && #[trigger] final(self)@.modules.contains_key(a) ==> final(self)@.modules[a] == old(self)@.modules[a],
    {
        let code = match self.get_package(address) {
            Some(p) => p.duplicate(),
            None => {
                return None;
            },
        };
        match module_cache_get(&mut self.code_cache, &address) {
            Some(m) => Some(m),
            None => {
                match parse_module(&code.into_code()) {
                    Some(module) => {
                        let result = clone_module(&module);
                        module_cache_put(&mut self.code_cache, address, module);
                        Some(result)
                    },
                    None => None,
                }
            },
        }
    }

    /// Writes every dirtied entity, and only those, back to the ledger,
    /// atomically from the caller's point of view: nothing else ever
    /// writes the ledger, so either this runs or the ledger keeps its
    /// pre-transaction state.
    #[verifier::loop_isolation(false)]
    pub fn commit(&mut self)
        requires
            old(self).wf(),
        ensures
            final(self).wf(),
            final(self)@ == (TrackV {
                ledger: LedgerV {
                    packages: write_back(
                        old(self)@.ledger.packages,
                        old(self)@.packages,
                        old(self)@.dirty_packages,
                    ),
                    components: write_back(
                        old(self)@.ledger.components,
                        old(self)@.components,
                        old(self)@.dirty_components,
                    ),
                    resource_defs: write_back(
                        old(self)@.ledger.resource_defs,
                        old(self)@.resource_defs,
                        old(self)@.dirty_resource_defs,
                    ),
                    lazy_maps: write_back(
                        old(self)@.ledger.lazy_maps,
                        old(self)@.lazy_maps,
                        old(self)@.dirty_lazy_maps,
                    ),
                    vaults: write_back(
                        old(self)@.ledger.vaults,
                        old(self)@.vaults,
                        old(self)@.dirty_vaults,
                    ),
                },
                ..old(self)@
            }),
    {
        let ghost base = old(self)@.ledger;
        let n0 = self.updated_packages.len();
        let mut i: usize = 0;
        proof {
            assert(self.updated_packages@.take(0).to_set() =~= Set::<Address>::empty());
            assert(write_back(base.packages, old(self)@.packages, Set::<Address>::empty())
                =~= base.packages);
            assert(self@.ledger =~= (LedgerV {
                packages: write_back(
                    base.packages,
                    old(self)@.packages,
                    old(self).updated_packages@.take(0).to_set(),
                ),
                ..base
            }));
            assert(self@ =~= (TrackV {
                ledger: LedgerV {
                    packages: write_back(
                        base.packages,
                        old(self)@.packages,
                        old(self).updated_packages@.take(0).to_set(),
                    ),
                    ..base
                },
                ..old(self)@
            }));
        }
        while i < n0
            invariant
                i <= n0,
                self.wf(),
                self.updated_packages@ == old(self).updated_packages@,
                self.updated_components@ == old(self).updated_components@,
                self.updated_resource_defs@ == old(self).updated_resource_defs@,
                self.updated_lazy_maps@ == old(self).updated_lazy_maps@,
                self.updated_vaults@ == old(self).updated_vaults@,
                self@ == (TrackV {
                    ledger: LedgerV {
                        packages: write_back(
                            base.packages,
                            old(self)@.packages,
                            old(self).updated_packages@.take(i as int).to_set(),
                        ),
                        ..base
                    },
                    ..old(self)@
                }),
            decreases n0 - i,
        {
            let addr = self.updated_packages[i];
            let entity_opt = self.packages.get(&addr);
            let entity = entity_opt.unwrap().duplicate();
            self.ledger.put_package(addr, entity);
            proof {
                assert(old(self)@.packages.contains_key(addr));
                let up = old(self).updated_packages@;
                assert(up.take(i + 1) =~= up.take(i as int).push(addr));
                up.take(i as int).lemma_push_to_set_commute(addr);
                assert(write_back(base.packages, old(self)@.packages, up.take(i as int).to_set())
                    .insert(addr, old(self)@.packages[addr]) =~= write_back(
                    base.packages,
                    old(self)@.packages,
                    up.take(i + 1).to_set(),
                ));
            }
            i += 1;
        }
        proof {
            assert(old(self).updated_packages@.take(n0 as int) =~= old(self).updated_packages@);
        }
        let ghost led1 = self@.ledger;
        let n1 = self.updated_components.len();
        let mut i: usize = 0;
        proof {
            assert(self.updated_components@.take(0).to_set() =~= Set::<Address>::empty());
            assert(write_back(led1.components, old(self)@.components, Set::<Address>::empty())
                =~= led1.components);
            assert(self@.ledger =~= (LedgerV {
                components: write_back(
                    led1.components,
                    old(self)@.components,
                    old(self).updated_components@.take(0).to_set(),
                ),
                ..led1
            }));
            assert(self@ =~= (TrackV {
                ledger: LedgerV {
                    components: write_back(
                        led1.components,
                        old(self)@.components,
                        old(self).updated_components@.take(0).to_set(),
                    ),
                    ..led1
                },
                ..old(self)@
            }));
        }
        while i < n1
            invariant
                i <= n1,
                self.wf(),
                self.updated_packages@ == old(self).updated_packages@,
                self.updated_components@ == old(self).updated_components@,
                self.updated_resource_defs@ == old(self).updated_resource_defs@,
                self.updated_lazy_maps@ == old(self).updated_lazy_maps@,
                self.updated_vaults@ == old(self).updated_vaults@,
                self@ == (TrackV {
                    ledger: LedgerV {
                        components: write_back(
                            led1.components,
                            old(self)@.components,
                            old(self).updated_components@.take(i as int).to_set(),
                        ),
                        ..led1
                    },
                    ..old(self)@
                }),
            decreases n1 - i,
        {
            let addr = self.updated_components[i];
            let entity_opt = self.components.get(&addr);
            let entity = entity_opt.unwrap().duplicate();
            self.ledger.put_component(addr, entity);
            proof {
                assert(old(self)@.components.contains_key(addr));
                let up = old(self).updated_components@;
                assert(up.take(i + 1) =~= up.take(i as int).push(addr));
                up.take(i as int).lemma_push_to_set_commute(addr);
                assert(write_back(led1.components, old(self)@.components, up.take(i as int).to_set())
                    .insert(addr, old(self)@.components[addr]) =~= write_back(
                    led1.components,
                    old(self)@.components,
                    up.take(i + 1).to_set(),
                ));
            }
            i += 1;
        }
        proof {
            assert(old(self).updated_components@.take(n1 as int) =~= old(self).updated_components@);
        }
        let ghost led2 = self@.ledger;
        let n2 = self.updated_resource_defs.len();
        let mut i: usize = 0;
        proof {
            assert(self.updated_resource_defs@.take(0).to_set() =~= Set::<Address>::empty());
            assert(write_back(led2.resource_defs, old(self)@.resource_defs, Set::<Address>::empty())
                =~= led2.resource_defs);
            assert(self@.ledger =~= (LedgerV {
                resource_defs: write_back(
                    led2.resource_defs,
                    old(self)@.resource_defs,
                    old(self).updated_resource_defs@.take(0).to_set(),
                ),
                ..led2
            }));
            assert(self@ =~= (TrackV {
                ledger: LedgerV {
                    resource_defs: write_back(
                        led2.resource_defs,
                        old(self)@.resource_defs,
                        old(self).updated_resource_defs@.take(0).to_set(),
                    ),
                    ..led2
                },
                ..old(self)@
            }));
        }
        while i < n2
            invariant
                i <= n2,
                self.wf(),
                self.updated_packages@ == old(self).updated_packages@,
                self.updated_components@ == old(self).updated_components@,
                self.updated_resource_defs@ == old(self).updated_resource_defs@,
                self.updated_lazy_maps@ == old(self).updated_lazy_maps@,
                self.updated_vaults@ == old(self).updated_vaults@,
                self@ == (TrackV {
                    ledger: LedgerV {
                        resource_defs: write_back(
                            led2.resource_defs,
                            old(self)@.resource_defs,
                            old(self).updated_resource_defs@.take(i as int).to_set(),
                        ),
                        ..led2
                    },
                    ..old(self)@
                }),
            decreases n2 - i,
        {
            let addr = self.updated_resource_defs[i];
            let entity_opt = self.resource_defs.get(&addr);
            let entity = entity_opt.unwrap().duplicate();
            self.ledger.put_resource_def(addr, entity);
            proof {
                assert(old(self)@.resource_defs.contains_key(addr));
                let up = old(self).updated_resource_defs@;
                assert(up.take(i + 1) =~= up.take(i as int).push(addr));
                up.take(i as int).lemma_push_to_set_commute(addr);
                assert(write_back(
                    led2.resource_defs,
                    old(self)@.resource_defs,
                    up.take(i as int).to_set(),
                ).insert(addr, old(self)@.resource_defs[addr]) =~= write_back(
                    led2.resource_defs,
                    old(self)@.resource_defs,
                    up.take(i + 1).to_set(),
                ));
            }
            i += 1;
        }
        proof {
            assert(old(self).updated_resource_defs@.take(n2 as int)
                =~= old(self).updated_resource_defs@);
        }
        let ghost led3 = self@.ledger;
        let n3 = self.updated_lazy_maps.len();
        let mut i: usize = 0;
        proof {
            assert(self.updated_lazy_maps@.take(0).to_set() =~= Set::<Mid>::empty());
            assert(write_back(led3.lazy_maps, old(self)@.lazy_maps, Set::<Mid>::empty())
                =~= led3.lazy_maps);
            assert(self@.ledger =~= (LedgerV {
                lazy_maps: write_back(
                    led3.lazy_maps,
                    old(self)@.lazy_maps,
                    old(self).updated_lazy_maps@.take(0).to_set(),
                ),
                ..led3
            }));
            assert(self@ =~= (TrackV {
                ledger: LedgerV {
                    lazy_maps: write_back(
                        led3.lazy_maps,
                        old(self)@.lazy_maps,
                        old(self).updated_lazy_maps@.take(0).to_set(),
                    ),
                    ..led3
                },
                ..old(self)@
            }));
        }
        while i < n3
            invariant
                i <= n3,
                self.wf(),
                self.updated_packages@ == old(self).updated_packages@,
                self.updated_components@ == old(self).updated_components@,
                self.updated_resource_defs@ == old(self).updated_resource_defs@,
                self.updated_lazy_maps@ == old(self).updated_lazy_maps@,
                self.updated_vaults@ == old(self).updated_vaults@,
                self@ == (TrackV {
                    ledger: LedgerV {
                        lazy_maps: write_back(
                            led3.lazy_maps,
                            old(self)@.lazy_maps,
                            old(self).updated_lazy_maps@.take(i as int).to_set(),
                        ),
                        ..led3
                    },
                    ..old(self)@
                }),
            decreases n3 - i,
        {
            let mid = self.updated_lazy_maps[i];
            let entity_opt = self.lazy_maps.get(&mid);
            let entity = entity_opt.unwrap().duplicate();
            self.ledger.put_lazy_map(mid, entity);
            proof {
                assert(old(self)@.lazy_maps.contains_key(mid));
                let up = old(self).updated_lazy_maps@;
                assert(up.take(i + 1) =~= up.take(i as int).push(mid));
                up.take(i as int).lemma_push_to_set_commute(mid);
                assert(write_back(led3.lazy_maps, old(self)@.lazy_maps, up.take(i as int).to_set())
                    .insert(mid, old(self)@.lazy_maps[mid]) =~= write_back(
                    led3.lazy_maps,
                    old(self)@.lazy_maps,
                    up.take(i + 1).to_set(),
                ));
            }
            i += 1;
        }
        proof {
            assert(old(self).updated_lazy_maps@.take(n3 as int) =~= old(self).updated_lazy_maps@);
        }
        let ghost led4 = self@.ledger;
        let n4 = self.updated_vaults.len();
        let mut i: usize = 0;
        proof {
            assert(self.updated_vaults@.take(0).to_set() =~= Set::<Vid>::empty());
            assert(write_back(led4.vaults, old(self)@.vaults, Set::<Vid>::empty()) =~= led4.vaults);
            assert(self@.ledger =~= (LedgerV {
                vaults: write_back(
                    led4.vaults,
                    old(self)@.vaults,
                    old(self).updated_vaults@.take(0).to_set(),
                ),
                ..led4
            }));
            assert(self@ =~= (TrackV {
                ledger: LedgerV {
                    vaults: write_back(
                        led4.vaults,
                        old(self)@.vaults,
                        old(self).updated_vaults@.take(0).to_set(),
                    ),
                    ..led4
                },
                ..old(self)@
            }));
        }
        while i < n4
            invariant
                i <= n4,
                self.wf(),
                self.updated_packages@ == old(self).updated_packages@,
                self.updated_components@ == old(self).updated_components@,
                self.updated_resource_defs@ == old(self).updated_resource_defs@,
                self.updated_lazy_maps@ == old(self).updated_lazy_maps@,
                self.updated_vaults@ == old(self).updated_vaults@,
                self@ == (TrackV {
                    ledger: LedgerV {
                        vaults: write_back(
                            led4.vaults,
                            old(self)@.vaults,
                            old(self).updated_vaults@.take(i as int).to_set(),
                        ),
                        ..led4
                    },
                    ..old(self)@
                }),
            decreases n4 - i,
        {
            let vid = self.updated_vaults[i];
            let entity_opt = self.vaults.get(&vid);
            let entity = entity_opt.unwrap().duplicate();
            self.ledger.put_vault(vid, entity);
            proof {
                assert(old(self)@.vaults.contains_key(vid));
                let up = old(self).updated_vaults@;
                assert(up.take(i + 1) =~= up.take(i as int).push(vid));
                up.take(i as int).lemma_push_to_set_commute(vid);
                assert(write_back(led4.vaults, old(self)@.vaults, up.take(i as int).to_set())
                    .insert(vid, old(self)@.vaults[vid]) =~= write_back(
                    led4.vaults,
                    old(self)@.vaults,
                    up.take(i + 1).to_set(),
                ));
            }
            i += 1;
        }
        proof {
            assert(old(self).updated_vaults@.take(n4 as int) =~= old(self).updated_vaults@);
        }
    }
}

} // verus!
