//! Published code, the immutable entity a package address resolves to.
use vstd::prelude::*;

use crate::store::Duplicable;

verus! {

/// A blueprint is a piece of code published on-chain; its model is its
/// compiled byte string.
#[derive(Debug)]
pub struct Blueprint {
    code: Vec<u8>,
}

impl View for Blueprint {
    type V = Seq<u8>;

    closed spec fn view(&self) -> Seq<u8> {
        self.code@
    }
}

impl Blueprint {
    pub fn new(code: Vec<u8>) -> (r: Self)
        ensures
            r@ == code@,
    {
        Self { code }
    }

    pub fn code(&self) -> (r: &[u8])
        ensures
            r@ == self@,
    {
        self.code.as_slice()
    }

    /// Unwraps the compiled code bytes.
    pub fn into_code(self) -> (r: Vec<u8>)
        ensures
            r@ == self@,
    {
        self.code
    }
}

impl Duplicable for Blueprint {
    fn duplicate(&self) -> (r: Self) {
        Self { code: self.code.duplicate() }
    }
}

} // verus!
