//! Durable resource containers gated by badge-based authorization.
use vstd::prelude::*;

use crate::auth::Auth;
use crate::bucket::{bucket_put, bucket_take, Bucket, BucketError, BucketV};
use crate::types::{Address, Amount};

verus! {

/// An error raised by a vault operation: either the underlying accounting
/// failed, or the presented badges did not include the vault's authority.
#[derive(Debug, Clone, Copy, PartialEq, Eq, Structural)]
pub enum VaultError {
    AccountingError(BucketError),
    UnauthorizedAccess,
}

/// The model of a vault: its contents and the authority that gates them.
pub struct VaultV {
    pub bucket: BucketV,
    pub auth: Address,
}

/// A persistent resource container on ledger state. Every mutating or
/// reading operation checks the presented badges against the bound
/// authority before doing anything else, so a failed check has no effect.
#[derive(Debug, Clone, Copy)]
pub struct Vault {
    bucket: Bucket,
    auth: Address,
}

impl View for Vault {
    type V = VaultV;

    closed spec fn view(&self) -> VaultV {
        VaultV { bucket: self.bucket@, auth: self.auth }
    }
}

impl Vault {
    pub fn new(bucket: Bucket, auth: Address) -> (r: Self)
        ensures
            r@ == (VaultV { bucket: bucket@, auth }),
    {
        Self { bucket, auth }
    }

    /// Merges `other` into the vault if the badges cover the bound
    /// authority; an uncovered authority is rejected before any mutation.
    pub fn put(&mut self, other: Bucket, auth: &Auth) -> (r: Result<(), VaultError>)
        requires
            (auth@.contains(old(self)@.auth) && old(self)@.bucket.resource == other@.resource)
                ==> old(self)@.bucket.amount + other@.amount <= Amount::MAX,
        ensures
            final(self)@.auth == old(self)@.auth,
            !auth@.contains(old(self)@.auth) ==> r == Err::<(), VaultError>(
                VaultError::UnauthorizedAccess,
            ) && final(self)@ == old(self)@,
            auth@.contains(old(self)@.auth) ==> match bucket_put(old(self)@.bucket, other@) {
                Ok(b) => r is Ok && final(self)@.bucket == b,
                Err(e) => r == Err::<(), VaultError>(VaultError::AccountingError(e)) && final(self)@ == old(self)@,
            },
    {
        if auth.contains(self.auth) {
            match self.bucket.put(other) {
                Ok(()) => Ok(()),
                Err(e) => Err(VaultError::AccountingError(e)),
            }
        } else {
            Err(VaultError::UnauthorizedAccess)
        }
    }

    /// Splits `amount` out of the vault, under the same badge check.
    pub fn take(&mut self, amount: Amount, auth: &Auth) -> (r: Result<Bucket, VaultError>)
        ensures
            final(self)@.auth == old(self)@.auth,
            !auth@.contains(old(self)@.auth) ==> r == Err::<Bucket, VaultError>(
                VaultError::UnauthorizedAccess,
            ) && final(self)@ == old(self)@,
            auth@.contains(old(self)@.auth) ==> match bucket_take(
                old(self)@.bucket,
                amount as nat,
            ) {
                Ok(pair) => {
                    &&& r is Ok
                    &&& final(self)@.bucket == pair.0
                    &&& r->Ok_0@ == pair.1
                },
                Err(e) => r == Err::<Bucket, VaultError>(VaultError::AccountingError(e)) && final(self)@ == old(self)@,
            },
    {
        if auth.contains(self.auth) {
            match self.bucket.take(amount) {
                Ok(b) => Ok(b),
                Err(e) => Err(VaultError::AccountingError(e)),
            }
        } else {
            Err(VaultError::UnauthorizedAccess)
        }
    }

    /// Reports the vault's balance, itself gated by the badge check.
    pub fn amount(&self, auth: &Auth) -> (r: Result<Amount, VaultError>)
        ensures
            !auth@.contains(self@.auth) ==> r == Err::<Amount, VaultError>(
                VaultError::UnauthorizedAccess,
            ),
            auth@.contains(self@.auth) ==> r is Ok && r->Ok_0 as nat == self@.bucket.amount,
    {
        if auth.contains(self.auth) {
            Ok(self.bucket.amount())
        } else {
            Err(VaultError::UnauthorizedAccess)
        }
    }

    /// Reports the resource definition of the vault's contents, gated by the
    /// badge check.
    pub fn resource_def(&self, auth: &Auth) -> (r: Result<Address, VaultError>)
        ensures
            !auth@.contains(self@.auth) ==> r == Err::<Address, VaultError>(
                VaultError::UnauthorizedAccess,
            ),
            auth@.contains(self@.auth) ==> r == Ok::<Address, VaultError>(self@.bucket.resource),
    {
        if auth.contains(self.auth) {
            Ok(self.bucket.resource())
        } else {
            Err(VaultError::UnauthorizedAccess)
        }
    }
}

impl crate::store::Duplicable for Vault {
    fn duplicate(&self) -> (r: Self) {
        *self
    }
}

} // verus!
