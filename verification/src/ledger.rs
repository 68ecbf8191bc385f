//! The abstract durable store behind a transaction, and the in-memory
//! reference implementation.
use vstd::prelude::*;

use crate::blueprint::Blueprint;
use crate::component::{Component, ComponentV, LazyMap};
use crate::resource_def::{ResourceDef, ResourceDefV};
use crate::store::{Duplicable, KvStore};
use crate::types::{Address, Mid, Vid};
use crate::vault::{Vault, VaultV};

verus! {

/// The model of a ledger: one map per entity kind. The ledger gives no
/// atomicity of its own; all cross-entity atomicity is the transaction
/// overlay's responsibility.
#[verifier::ext_equal]
pub struct LedgerV {
    pub packages: Map<Address, Seq<u8>>,
    pub components: Map<Address, ComponentV>,
    pub resource_defs: Map<Address, ResourceDefV>,
    pub lazy_maps: Map<Mid, Map<Seq<u8>, Seq<u8>>>,
    pub vaults: Map<Vid, VaultV>,
}

/// A durable store with independent reads and writes per entity kind.
/// Implementations must behave alike: exactly this contract, so an
/// in-memory and a persistent ledger are interchangeable.
pub trait Ledger: Sized {
    /// What the ledger durably holds.
    spec fn model(&self) -> LedgerV;

    fn get_package(&self, address: Address) -> (r: Option<Blueprint>)
        ensures
            r is Some <==> self.model().packages.contains_key(address),
            r is Some ==> r->0@ == self.model().packages[address],
    ;

    fn put_package(&mut self, address: Address, package: Blueprint)
        ensures
            final(self).model() == (LedgerV {
                packages: old(self).model().packages.insert(address, package@),
                ..old(self).model()
            }),
    ;

    fn get_component(&self, address: Address) -> (r: Option<Component>)
        ensures
            r is Some <==> self.model().components.contains_key(address),
            r is Some ==> r->0@ == self.model().components[address],
    ;

    fn put_component(&mut self, address: Address, component: Component)
        ensures
            final(self).model() == (LedgerV {
                components: old(self).model().components.insert(address, component@),
                ..old(self).model()
            }),
    ;

    fn get_resource_def(&self, address: Address) -> (r: Option<ResourceDef>)
        ensures
            r is Some <==> self.model().resource_defs.contains_key(address),
            r is Some ==> r->0@ == self.model().resource_defs[address],
    ;

    fn put_resource_def(&mut self, address: Address, resource_def: ResourceDef)
        ensures
            final(self).model() == (LedgerV {
                resource_defs: old(self).model().resource_defs.insert(address, resource_def@),
                ..old(self).model()
            }),
    ;

    fn get_lazy_map(&self, mid: Mid) -> (r: Option<LazyMap>)
        ensures
            r is Some <==> self.model().lazy_maps.contains_key(mid),
            r is Some ==> r->0@ == self.model().lazy_maps[mid],
    ;

    fn put_lazy_map(&mut self, mid: Mid, lazy_map: LazyMap)
        ensures
            final(self).model() == (LedgerV {
                lazy_maps: old(self).model().lazy_maps.insert(mid, lazy_map@),
                ..old(self).model()
            }),
    ;

    fn get_vault(&self, vid: Vid) -> (r: Option<Vault>)
        ensures
            r is Some <==> self.model().vaults.contains_key(vid),
            r is Some ==> r->0@ == self.model().vaults[vid],
    ;

    fn put_vault(&mut self, vid: Vid, vault: Vault)
        ensures
            final(self).model() == (LedgerV {
                vaults: old(self).model().vaults.insert(vid, vault@),
                ..old(self).model()
            }),
    ;
}

/// The in-memory reference ledger.
pub struct InMemoryLedger {
    packages: KvStore<Address, Blueprint>,
    components: KvStore<Address, Component>,
    resource_defs: KvStore<Address, ResourceDef>,
    lazy_maps: KvStore<Mid, LazyMap>,
    vaults: KvStore<Vid, Vault>,
}

impl InMemoryLedger {
    #[verifier::type_invariant]
    closed spec fn wf(&self) -> bool {
        &&& self.packages.wf()
        &&& self.components.wf()
        &&& self.resource_defs.wf()
        &&& self.lazy_maps.wf()
        &&& self.vaults.wf()
    }

    pub fn new() -> (r: Self)
        ensures
            r.model() == (LedgerV {
                packages: Map::<Address, Seq<u8>>::empty(),
                components: Map::<Address, ComponentV>::empty(),
                resource_defs: Map::<Address, ResourceDefV>::empty(),
                lazy_maps: Map::<Mid, Map<Seq<u8>, Seq<u8>>>::empty(),
                vaults: Map::<Vid, VaultV>::empty(),
            }),
    {
        Self {
            packages: KvStore::new(),
            components: KvStore::new(),
            resource_defs: KvStore::new(),
            lazy_maps: KvStore::new(),
            vaults: KvStore::new(),
        }
    }
}

impl Ledger for InMemoryLedger {
    closed spec fn model(&self) -> LedgerV {
        LedgerV {
            packages: self.packages@,
            components: self.components@,
            resource_defs: self.resource_defs@,
            lazy_maps: self.lazy_maps@,
            vaults: self.vaults@,
        }
    }

    fn get_package(&self, address: Address) -> (r: Option<Blueprint>) {
        proof {
            use_type_invariant(self);
        }
        match self.packages.get(&address) {
            Some(b) => Some(b.duplicate()),
            None => None,
        }
    }

    fn put_package(&mut self, address: Address, package: Blueprint) {
        proof {
            use_type_invariant(&*self);
        }
        let mut store = KvStore::new();
        std::mem::swap(&mut store, &mut self.packages);
        store.insert(address, package);
        self.packages = store;
    }

    fn get_component(&self, address: Address) -> (r: Option<Component>) {
        proof {
            use_type_invariant(self);
        }
        match self.components.get(&address) {
            Some(c) => Some(c.duplicate()),
            None => None,
        }
    }

    fn put_component(&mut self, address: Address, component: Component) {
        proof {
            use_type_invariant(&*self);
        }
        let mut store = KvStore::new();
        std::mem::swap(&mut store, &mut self.components);
        store.insert(address, component);
        self.components = store;
    }

    fn get_resource_def(&self, address: Address) -> (r: Option<ResourceDef>) {
        proof {
            use_type_invariant(self);
        }
        match self.resource_defs.get(&address) {
            Some(d) => Some(d.duplicate()),
            None => None,
        }
    }

    fn put_resource_def(&mut self, address: Address, resource_def: ResourceDef) {
        proof {
            use_type_invariant(&*self);
        }
        let mut store = KvStore::new();
        std::mem::swap(&mut store, &mut self.resource_defs);
        store.insert(address, resource_def);
        self.resource_defs = store;
    }

    fn get_lazy_map(&self, mid: Mid) -> (r: Option<LazyMap>) {
        proof {
            use_type_invariant(self);
        }
        match self.lazy_maps.get(&mid) {
            Some(m) => Some(m.duplicate()),
            None => None,
        }
    }

    fn put_lazy_map(&mut self, mid: Mid, lazy_map: LazyMap) {
        proof {
            use_type_invariant(&*self);
        }
        let mut store = KvStore::new();
        std::mem::swap(&mut store, &mut self.lazy_maps);
        store.insert(mid, lazy_map);
        self.lazy_maps = store;
    }

    fn get_vault(&self, vid: Vid) -> (r: Option<Vault>) {
        proof {
            use_type_invariant(self);
        }
        match self.vaults.get(&vid) {
            Some(v) => Some(v.duplicate()),
            None => None,
        }
    }

    fn put_vault(&mut self, vid: Vid, vault: Vault) {
        proof {
            use_type_invariant(&*self);
        }
        let mut store = KvStore::new();
        std::mem::swap(&mut store, &mut self.vaults);
        store.insert(vid, vault);
        self.vaults = store;
    }
}

} // verus!
