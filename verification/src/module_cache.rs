//! A bounded, least-recently-used cache of instantiated bytecode modules,
//! keyed by package address. The cache exists purely to amortize repeated
//! parsing; its presence or absence never changes execution results, and
//! its contract says exactly which entries it can serve.
use vstd::prelude::*;

use crate::types::Address;

verus! {

#[verifier::external_type_specification]
#[verifier::external_body]
#[verifier::reject_recursive_types(K)]
#[verifier::reject_recursive_types(V)]
#[verifier::reject_recursive_types(S)]
pub struct ExLruCache<K, V, S>(lru::LruCache<K, V, S>);

#[verifier::external_type_specification]
#[verifier::external_body]
pub struct ExDefaultHasher(lru::DefaultHasher);

#[verifier::external_type_specification]
#[verifier::external_body]
pub struct ExModule(wasmi::Module);

/// The bounded cache of parsed modules, keyed by package address.
pub type ModuleCache = lru::LruCache<Address, wasmi::Module>;

/// What the cache holds: the map from package address to cached module.
pub uninterp spec fn lru_contents(c: ModuleCache) -> Map<Address, wasmi::Module>;

/// Whether a byte string is valid bytecode under the interpreter's
/// default configuration. With the configuration fixed, validity is a
/// function of the bytes alone.
pub uninterp spec fn wasm_valid(code: Seq<u8>) -> bool;

/// Relies on `lru::LruCache::new`: a fresh cache with the given capacity
/// bound holds nothing yet.
#[verifier::external_body]
pub fn new_module_cache(cap: usize) -> (r: ModuleCache)
    requires
        cap >= 1,
    ensures
        forall|a: Address| !(#[trigger] lru_contents(r).contains_key(a)),
{
    lru::LruCache::new(core::num::NonZeroUsize::new(cap).unwrap())
}

/// Relies on `lru::LruCache::get`: it serves the entry stored under the
/// key, if any, and only refreshes recency — the contents never change.
/// The returned module is a clone of the stored one.
#[verifier::external_body]
pub fn module_cache_get(cache: &mut ModuleCache, address: &Address) -> (r: Option<
    wasmi::Module,
>)
    ensures
        lru_contents(*final(cache)) == lru_contents(*old(cache)),
        r is Some <==> lru_contents(*old(cache)).contains_key(*address),
{
    cache.get(address).cloned()
}

/// Relies on `lru::LruCache::put`: afterwards the key maps to the given
/// value; to keep the capacity bound, at most the least recently used
/// other entry leaves, and no kept entry changes.
#[verifier::external_body]
pub fn module_cache_put(cache: &mut ModuleCache, address: Address, module: wasmi::Module)
    ensures
        lru_contents(*final(cache)).contains_key(address),
        lru_contents(*final(cache))[address] == module,
        forall|a: Address| #[trigger]
            lru_contents(*final(cache)).contains_key(a) ==> a == address || lru_contents(
                *old(cache),
            ).contains_key(a),
        forall|a: Address|
            a != address && #[trigger] lru_contents(*final(cache)).contains_key(a)
                ==> lru_contents(*final(cache))[a] == lru_contents(*old(cache))[a],
{
    cache.put(address, module);
}

/// Relies on `wasmi::Module::new` under `wasmi::Engine::default`: it
/// parses and validates the code bytes against the default configuration,
/// yielding a module exactly when they are valid bytecode — a function of
/// the bytes alone, since the configuration is fixed.
#[verifier::external_body]
pub fn parse_module(code: &Vec<u8>) -> (r: Option<wasmi::Module>)
    ensures
        r is Some <==> wasm_valid(code@),
{
    wasmi::Module::new(&wasmi::Engine::default(), code.as_slice()).ok()
}

/// Relies on `wasmi::Module::clone`: modules are cheaply shareable.
#[verifier::external_body]
pub fn clone_module(module: &wasmi::Module) -> (r: wasmi::Module) {
    module.clone()
}

} // verus!
