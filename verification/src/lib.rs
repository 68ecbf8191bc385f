//! A deterministic execution engine for ledger-hosted programs that
//! manipulate typed, conserved resources under strict ownership rules.
//!
//! The crate is organised bottom-up:
//! - [`types`] holds the shared value types: hashes, addresses,
//!   identifiers and resource amounts; [`hexstr`] their hex spellings.
//! - [`encode`], [`decode`], [`value`] and [`buffer`] form the
//!   self-describing binary codec and the framing of the module boundary.
//! - [`bucket`], [`vault`], [`auth`] and [`resource_def`] are the
//!   resource model: containers, badge-gated vaults and supply rules.
//! - [`blueprint`] and [`component`] are the durable entities;
//!   [`store`] the verified key-value container they all build on.
//! - [`ledger`] is the abstract durable store, [`id_allocator`] the
//!   deterministic id source, [`track`] the per-transaction overlay with
//!   its bounded [`module_cache`], and [`process`] the call engine.
//! - [`handles`] and [`package`] are the surface a blueprint's code works
//!   with.

pub mod auth;
pub mod blueprint;
pub mod bucket;
pub mod buffer;
pub mod component;
pub mod decode;
pub mod encode;
pub mod handles;
pub mod hexstr;
pub mod id_allocator;
pub mod ledger;
pub mod module_cache;
pub mod package;
pub mod process;
pub mod resource_def;
pub mod store;
pub mod track;
pub mod types;
pub mod value;
pub mod vault;
