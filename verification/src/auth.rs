//! The authorization evidence a call frame presents to guarded operations.
use vstd::prelude::*;

use crate::types::Address;

verus! {

/// The set of badge addresses asserted by the bucket references a frame
/// currently holds. A guarded operation succeeds when the authority it is
/// bound to appears in this set.
#[derive(Debug, Clone)]
pub struct Auth {
    badges: Vec<Address>,
}

impl View for Auth {
    type V = Seq<Address>;

    closed spec fn view(&self) -> Seq<Address> {
        self.badges@
    }
}

impl Auth {
    /// Evidence asserting no badge at all.
    pub fn none() -> (r: Self)
        ensures
            r@ == Seq::<Address>::empty(),
    {
        Self { badges: Vec::new() }
    }

    /// Evidence asserting exactly the given badge addresses.
    pub fn with_badges(badges: Vec<Address>) -> (r: Self)
        ensures
            r@ == badges@,
    {
        Self { badges }
    }

    pub closed spec fn spec_contains(&self, authority: Address) -> bool {
        self.badges@.contains(authority)
    }

    /// Whether the presented badges include the given authority.
    #[verifier::when_used_as_spec(spec_contains)]
    pub fn contains(&self, authority: Address) -> (r: bool)
        ensures
            r == self@.contains(authority),
    {
        let n = self.badges.len();
        let mut i: usize = 0;
        while i < n
            invariant
                n == self.badges@.len(),
                i <= n,
                forall|j: int| 0 <= j < i ==> self.badges@[j] != authority,
            decreases n - i,
        {
            if self.badges[i] == authority {
                assert(self.badges@[i as int] == authority);
                return true;
            }
            i += 1;
        }
        false
    }
}

} // verus!
