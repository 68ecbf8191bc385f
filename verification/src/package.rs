//! A handle to a published package: a collection of blueprints compiled
//! and published as a single unit.
use vstd::prelude::*;

use crate::blueprint::Blueprint;
use crate::ledger::Ledger;
use crate::track::{Track, TrackV};
use crate::types::Address;
use vstd::slice::slice_to_vec;

verus! {

/// An addressable published package.
#[derive(Debug, Clone, Copy)]
pub struct Package {
    address: Address,
}

impl View for Package {
    type V = Address;

    closed spec fn view(&self) -> Address {
        self.address
    }
}

impl Package {
    /// Publishes the given code under a fresh package address.
    pub fn new<L: Ledger>(code: &[u8], track: &mut Track<L>) -> (r: Self)
        requires
            old(track).wf(),
            old(track)@.next_id < u32::MAX,
        ensures
            final(track).wf(),
            r@ == Address::Package(
                crate::types::EntityId { hash: old(track)@.tx_hash, index: old(track)@.next_id },
            ),
            final(track)@ == (TrackV {
                next_id: (old(track)@.next_id + 1) as u32,
                new_entities: old(track)@.new_entities.push(r@),
                packages: old(track)@.packages.insert(r@, code@),
                dirty_packages: old(track)@.dirty_packages.insert(r@),
                ..old(track)@
            }),
    {
        let address = track.new_package_address();
        track.put_package(address, Blueprint::new(slice_to_vec(code)));
        Self { address }
    }

    /// A handle for an already published address.
    pub fn from_address(address: Address) -> (r: Self)
        ensures
            r@ == address,
    {
        Self { address }
    }

    /// The package's address.
    pub fn address(&self) -> (r: Address)
        ensures
            r == self@,
    {
        self.address
    }
}

} // verus!
