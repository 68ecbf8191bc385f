//! The registry record for a resource type: metadata, minting authority
//! and supply, with the minting and burning rules.
use vstd::prelude::*;

use crate::auth::Auth;
use crate::bucket::Bucket;
use crate::store::{
    entries_map, lemma_entries_map_congruence, lemma_entries_map_contains, Duplicable,
};
use crate::types::{Address, Amount};

verus! {

/// An error raised by a resource definition operation.
#[derive(Debug, Clone, Copy, PartialEq, Eq, Structural)]
pub enum ResourceDefError {
    /// The presented badges do not cover the registered minter authority.
    UnauthorizedAccess,
    /// Minting or burning a fixed-supply resource, or minting by count on
    /// a non-fungible one and the other way round.
    UnsupportedOperation,
    /// A bucket of some other resource was handed in.
    MismatchingResourceType,
    /// Burning more than the recorded supply.
    InsufficientSupply,
    /// Minting a non-fungible id that was already issued.
    DuplicateNonFungibleId,
}

/// A resource's supply discipline.
#[derive(Debug, Clone, Copy)]
pub enum Supply {
    /// A total fixed at creation; minting and burning are rejected.
    Fixed(Amount),
    /// A mutable running total of fungible units.
    Fungible(Amount),
    /// A mutable collection of non-fungibles: the running total and the
    /// lowest id not yet issued. Every issued id lies below `next_id`, so
    /// issuing at or above it keeps ids unique.
    NonFungible { total: Amount, next_id: u64 },
}

/// The model of a supply.
pub enum SupplyV {
    Fixed(nat),
    Fungible(nat),
    NonFungible { total: nat, next_id: nat },
}

impl View for Supply {
    type V = SupplyV;

    open spec fn view(&self) -> SupplyV {
        match self {
            Supply::Fixed(t) => SupplyV::Fixed(*t as nat),
            Supply::Fungible(t) => SupplyV::Fungible(*t as nat),
            Supply::NonFungible { total, next_id } => SupplyV::NonFungible {
                total: *total as nat,
                next_id: *next_id as nat,
            },
        }
    }
}

/// The model of a resource definition.
pub struct ResourceDefV {
    pub address: Address,
    pub metadata: Map<Seq<char>, Seq<char>>,
    pub minter: Option<Address>,
    pub supply: SupplyV,
}

/// The map a metadata list describes: a later entry for a name overwrites
/// an earlier one, exactly as inserting the pairs in order would.
pub open spec fn metadata_view(s: Seq<(String, String)>) -> Map<Seq<char>, Seq<char>> {
    entries_map(s)
}


/// A fresh metadata list with the same models, pair by pair.
#[verifier::loop_isolation(false)]
pub fn copy_metadata(src: &Vec<(String, String)>) -> (r: Vec<(String, String)>)
    ensures
        metadata_view(r@) == metadata_view(src@),
{
    let mut out: Vec<(String, String)> = Vec::new();
    let n = src.len();
    let mut i: usize = 0;
    while i < n
        invariant
            i <= n,
            out@.len() == i,
            forall|j: int|
                0 <= j < i ==> (#[trigger] out@[j]).0@ == src@[j].0@ && out@[j].1@ == src@[j].1@,
        decreases n - i,
    {
        let k = src[i].0.duplicate();
        let v = src[i].1.duplicate();
        out.push((k, v));
        i += 1;
    }
    proof {
        lemma_entries_map_congruence(out@, src@);
    }
    out
}

/// The registry record for one resource type.
#[derive(Debug)]
pub struct ResourceDef {
    address: Address,
    metadata: Vec<(String, String)>,
    minter: Option<Address>,
    supply: Supply,
}

impl View for ResourceDef {
    type V = ResourceDefV;

    closed spec fn view(&self) -> ResourceDefV {
        ResourceDefV {
            address: self.address,
            metadata: metadata_view(self.metadata@),
            minter: self.minter,
            supply: self.supply@,
        }
    }
}

impl ResourceDef {
    /// A fixed-supply fungible resource: its total never changes and it
    /// has no minter.
    pub fn new_fixed(address: Address, metadata: Vec<(String, String)>, supply: Amount) -> (r:
        Self)
        ensures
            r@ == (ResourceDefV {
                address,
                metadata: metadata_view(metadata@),
                minter: None,
                supply: SupplyV::Fixed(supply as nat),
            }),
    {
        Self { address, metadata, minter: None, supply: Supply::Fixed(supply) }
    }

    /// A mutable-supply fungible resource, mintable by the given authority.
    pub fn new_mutable(address: Address, metadata: Vec<(String, String)>, minter: Address) -> (r:
        Self)
        ensures
            r@ == (ResourceDefV {
                address,
                metadata: metadata_view(metadata@),
                minter: Some(minter),
                supply: SupplyV::Fungible(0),
            }),
    {
        Self { address, metadata, minter: Some(minter), supply: Supply::Fungible(0) }
    }

    /// A non-fungible resource, mintable by the given authority, with no
    /// ids issued yet.
    pub fn new_non_fungible(
        address: Address,
        metadata: Vec<(String, String)>,
        minter: Address,
    ) -> (r: Self)
        ensures
            r@ == (ResourceDefV {
                address,
                metadata: metadata_view(metadata@),
                minter: Some(minter),
                supply: SupplyV::NonFungible { total: 0, next_id: 0 },
            }),
    {
        Self {
            address,
            metadata,
            minter: Some(minter),
            supply: Supply::NonFungible { total: 0, next_id: 0 },
        }
    }

    pub fn address(&self) -> (r: Address)
        ensures
            r == self@.address,
    {
        self.address
    }

    pub fn minter(&self) -> (r: Option<Address>)
        ensures
            r == self@.minter,
    {
        self.minter
    }

    /// The recorded total supply, whatever the discipline.
    pub fn total_supply(&self) -> (r: Amount)
        ensures
            r as nat == match self@.supply {
                SupplyV::Fixed(t) => t,
                SupplyV::Fungible(t) => t,
                SupplyV::NonFungible { total, .. } => total,
            },
    {
        match &self.supply {
            Supply::Fixed(t) => *t,
            Supply::Fungible(t) => *t,
            Supply::NonFungible { total, .. } => *total,
        }
    }

    /// The supply discipline and its current counters.
    pub fn supply_info(&self) -> (r: Supply)
        ensures
            r@ == self@.supply,
    {
        self.supply
    }

    pub fn metadata(&self) -> (r: &Vec<(String, String)>)
        ensures
            metadata_view(r@) == self@.metadata,
    {
        &self.metadata
    }

    /// The value stored under a metadata name, the latest entry winning.
    #[verifier::loop_isolation(false)]
    pub fn metadata_lookup(&self, name: &String) -> (r: Option<&String>)
        ensures
            r is Some <==> self@.metadata.contains_key(name@),
            r is Some ==> r->0@ == self@.metadata[name@],
    {
        proof {
            lemma_entries_map_contains(self.metadata@, name@);
        }
        let n = self.metadata.len();
        let mut i: usize = n;
        while i > 0
            invariant
                i <= n,
                n == self.metadata@.len(),
                forall|j: int| i <= j < n ==> (#[trigger] self.metadata@[j]).0@ != name@,
            decreases i,
        {
            i -= 1;
            if self.metadata[i].0 == *name {
                proof {
                    lemma_entries_map_last_match(self.metadata@, i as int, name@);
                }
                return Some(&self.metadata[i].1);
            }
        }
        None
    }

    /// Mints fungible units. The badges must cover the registered minter;
    /// a fixed supply rejects every mint; a non-fungible supply cannot be
    /// minted by bare amount.
    pub fn mint(&mut self, amount: Amount, auth: &Auth) -> (r: Result<(), ResourceDefError>)
        requires
            old(self)@.minter is Some && auth@.contains(old(self)@.minter->0) && old(
                self,
            )@.supply is Fungible ==> old(self)@.supply->Fungible_0 + amount <= Amount::MAX,
        ensures
            match old(self)@.minter {
                None => r == Err::<(), ResourceDefError>(ResourceDefError::UnsupportedOperation)
                    && final(self)@ == old(self)@,
                Some(m) => {
                    if !auth@.contains(m) {
                        r == Err::<(), ResourceDefError>(ResourceDefError::UnauthorizedAccess)
                            && final(self)@ == old(self)@
                    } else {
                        match old(self)@.supply {
                            SupplyV::Fungible(t) => r is Ok && final(self)@ == (ResourceDefV {
                                supply: SupplyV::Fungible((t + amount) as nat),
                                ..old(self)@
                            }),
                            _ => r == Err::<(), ResourceDefError>(
                                ResourceDefError::UnsupportedOperation,
                            ) && final(self)@ == old(self)@,
                        }
                    }
                },
            },
    {
        match self.minter {
            None => Err(ResourceDefError::UnsupportedOperation),
            Some(m) => {
                if !auth.contains(m) {
                    Err(ResourceDefError::UnauthorizedAccess)
                } else {
                    match &self.supply {
                        Supply::Fungible(t) => {
                            self.supply = Supply::Fungible(*t + amount);
                            Ok(())
                        },
                        _ => Err(ResourceDefError::UnsupportedOperation),
                    }
                }
            },
        }
    }

    /// Mints one non-fungible with a caller-supplied id. The id must not
    /// have been issued before: ids below `next_id` are taken and are
    /// rejected as duplicates.
    pub fn mint_non_fungible(&mut self, id: u64, auth: &Auth) -> (r: Result<
        (),
        ResourceDefError,
    >)
        requires
            id < u64::MAX,
            old(self)@.minter is Some && auth@.contains(old(self)@.minter->0) && old(
                self,
            )@.supply is NonFungible ==> old(self)@.supply->NonFungible_total + 1
                <= Amount::MAX,
        ensures
            match old(self)@.minter {
                None => r == Err::<(), ResourceDefError>(ResourceDefError::UnsupportedOperation)
                    && final(self)@ == old(self)@,
                Some(m) => {
                    if !auth@.contains(m) {
                        r == Err::<(), ResourceDefError>(ResourceDefError::UnauthorizedAccess)
                            && final(self)@ == old(self)@
                    } else {
                        match old(self)@.supply {
                            SupplyV::NonFungible { total, next_id } => {
                                if (id as nat) < next_id {
                                    r == Err::<(), ResourceDefError>(
                                        ResourceDefError::DuplicateNonFungibleId,
                                    ) && final(self)@ == old(self)@
                                } else {
                                    r is Ok && final(self)@ == (ResourceDefV {
                                        supply: SupplyV::NonFungible {
                                            total: (total + 1) as nat,
                                            next_id: (id + 1) as nat,
                                        },
                                        ..old(self)@
                                    })
                                }
                            },
                            _ => r == Err::<(), ResourceDefError>(
                                ResourceDefError::UnsupportedOperation,
                            ) && final(self)@ == old(self)@,
                        }
                    }
                },
            },
    {
        match self.minter {
            None => Err(ResourceDefError::UnsupportedOperation),
            Some(m) => {
                if !auth.contains(m) {
                    Err(ResourceDefError::UnauthorizedAccess)
                } else {
                    match &self.supply {
                        Supply::NonFungible { total, next_id } => {
                            if id < *next_id {
                                Err(ResourceDefError::DuplicateNonFungibleId)
                            } else {
                                self.supply = Supply::NonFungible {
                                    total: *total + 1,
                                    next_id: id + 1,
                                };
                                Ok(())
                            }
                        },
                        _ => Err(ResourceDefError::UnsupportedOperation),
                    }
                }
            },
        }
    }

    /// Burns a bucket of this resource, destroying it and decreasing the
    /// recorded supply. A fixed supply rejects every burn; a bucket of a
    /// different resource is rejected untouched.
    pub fn burn(&mut self, bucket: Bucket) -> (r: Result<(), ResourceDefError>)
        ensures
            bucket@.resource != old(self)@.address ==> r == Err::<(), ResourceDefError>(
                ResourceDefError::MismatchingResourceType,
            ) && final(self)@ == old(self)@,
            bucket@.resource == old(self)@.address ==> match old(self)@.supply {
                SupplyV::Fixed(_) => r == Err::<(), ResourceDefError>(
                    ResourceDefError::UnsupportedOperation,
                ) && final(self)@ == old(self)@,
                SupplyV::Fungible(t) => {
                    if bucket@.amount <= t {
                        r is Ok && final(self)@ == (ResourceDefV {
                            supply: SupplyV::Fungible((t - bucket@.amount) as nat),
                            ..old(self)@
                        })
                    } else {
                        r == Err::<(), ResourceDefError>(ResourceDefError::InsufficientSupply)
                            && final(self)@ == old(self)@
                    }
                },
                SupplyV::NonFungible { total, next_id } => {
                    if bucket@.amount <= total {
                        r is Ok && final(self)@ == (ResourceDefV {
                            supply: SupplyV::NonFungible {
                                total: (total - bucket@.amount) as nat,
                                next_id,
                            },
                            ..old(self)@
                        })
                    } else {
                        r == Err::<(), ResourceDefError>(ResourceDefError::InsufficientSupply)
                            && final(self)@ == old(self)@
                    }
                },
            },
    {
        if bucket.resource() != self.address {
            return Err(ResourceDefError::MismatchingResourceType);
        }
        let amount = bucket.amount();
        match &self.supply {
            Supply::Fixed(_) => Err(ResourceDefError::UnsupportedOperation),
            Supply::Fungible(t) => {
                if amount <= *t {
                    self.supply = Supply::Fungible(*t - amount);
                    Ok(())
                } else {
                    Err(ResourceDefError::InsufficientSupply)
                }
            },
            Supply::NonFungible { total, next_id } => {
                if amount <= *total {
                    self.supply = Supply::NonFungible { total: *total - amount, next_id: *next_id };
                    Ok(())
                } else {
                    Err(ResourceDefError::InsufficientSupply)
                }
            },
        }
    }
}

impl Duplicable for ResourceDef {
    fn duplicate(&self) -> (r: Self) {
        let metadata = copy_metadata(&self.metadata);
        let supply = match &self.supply {
            Supply::Fixed(t) => Supply::Fixed(*t),
            Supply::Fungible(t) => Supply::Fungible(*t),
            Supply::NonFungible { total, next_id } => Supply::NonFungible {
                total: *total,
                next_id: *next_id,
            },
        };
        Self { address: self.address, metadata, minter: self.minter, supply }
    }
}

/// The latest entry for a name gives that name's value in the map the
/// list describes.
proof fn lemma_entries_map_last_match(s: Seq<(String, String)>, i: int, name: Seq<char>)
    requires
        0 <= i < s.len(),
        s[i].0@ == name,
        forall|j: int| i < j < s.len() ==> (#[trigger] s[j]).0@ != name,
    ensures
        entries_map(s).contains_key(name),
        entries_map(s)[name] == s[i].1@,
    decreases s.len(),
{
    if i == s.len() - 1 {
    } else {
        assert(s.last().0@ != name);
        assert(s.drop_last()[i] == s[i]);
        assert(forall|j: int|
            i < j < s.drop_last().len() ==> (#[trigger] s.drop_last()[j]).0@ != name) by {
            assert(forall|j: int| 0 <= j < s.len() - 1 ==> s.drop_last()[j] == (#[trigger] s[j]));
        }
        lemma_entries_map_last_match(s.drop_last(), i, name);
    }
}

} // verus!
