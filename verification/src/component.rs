//! Stateful entities: components and the lazy maps they own.
use vstd::prelude::*;

use crate::store::{Duplicable, KvStore};
use crate::types::Address;

verus! {

/// The model of a component: the package it was instantiated from, its
/// blueprint's name and its serialized state.
pub struct ComponentV {
    pub package: Address,
    pub name: Seq<char>,
    pub state: Seq<u8>,
}

/// An addressable, stateful instance of a blueprint. Its state blob is
/// opaque here; it is read and written only through mediated calls.
#[derive(Debug)]
pub struct Component {
    package: Address,
    name: String,
    state: Vec<u8>,
}

impl View for Component {
    type V = ComponentV;

    closed spec fn view(&self) -> ComponentV {
        ComponentV { package: self.package, name: self.name@, state: self.state@ }
    }
}

impl Component {
    pub fn new(package: Address, name: String, state: Vec<u8>) -> (r: Self)
        ensures
            r@ == (ComponentV { package, name: name@, state: state@ }),
    {
        Self { package, name, state }
    }

    /// The package this component was instantiated from.
    pub fn package(&self) -> (r: Address)
        ensures
            r == self@.package,
    {
        self.package
    }

    /// The name of the blueprint within that package.
    pub fn blueprint_name(&self) -> (r: &str)
        ensures
            r@ == self@.name,
    {
        self.name.as_str()
    }

    /// The serialized state blob.
    pub fn state(&self) -> (r: &[u8])
        ensures
            r@ == self@.state,
    {
        self.state.as_slice()
    }

    /// Replaces the serialized state blob.
    pub fn set_state(&mut self, state: Vec<u8>)
        ensures
            final(self)@ == (ComponentV { state: state@, ..old(self)@ }),
    {
        self.state = state;
    }
}

impl Duplicable for Component {
    fn duplicate(&self) -> (r: Self) {
        Self {
            package: self.package,
            name: self.name.duplicate(),
            state: self.state.duplicate(),
        }
    }
}

/// A durable key-to-value store addressed by a map id; entries are codec
/// bytes on both sides and are loaded on demand.
pub struct LazyMap {
    entries: KvStore<Vec<u8>, Vec<u8>>,
}

impl View for LazyMap {
    type V = Map<Seq<u8>, Seq<u8>>;

    closed spec fn view(&self) -> Map<Seq<u8>, Seq<u8>> {
        self.entries@
    }
}

impl LazyMap {
    #[verifier::type_invariant]
    closed spec fn wf(&self) -> bool {
        self.entries.wf()
    }

    pub fn new() -> (r: Self)
        ensures
            r@ == Map::<Seq<u8>, Seq<u8>>::empty(),
    {
        Self { entries: KvStore::new() }
    }

    /// The value stored under the key, if any.
    pub fn get_entry(&self, key: &Vec<u8>) -> (r: Option<&Vec<u8>>)
        ensures
            r is Some <==> self@.contains_key(key@),
            r is Some ==> r->0@ == self@[key@],
    {
        proof {
            use_type_invariant(self);
        }
        self.entries.get(key)
    }

    /// Stores a value under the key, replacing what was there.
    pub fn set_entry(&mut self, key: Vec<u8>, value: Vec<u8>)
        ensures
            final(self)@ == old(self)@.insert(key@, value@),
    {
        proof {
            use_type_invariant(&*self);
        }
        let mut entries = KvStore::new();
        std::mem::swap(&mut entries, &mut self.entries);
        entries.insert(key, value);
        self.entries = entries;
    }
}

impl Duplicable for LazyMap {
    fn duplicate(&self) -> (r: Self) {
        proof {
            use_type_invariant(self);
        }
        Self { entries: self.entries.duplicate() }
    }
}

} // verus!
