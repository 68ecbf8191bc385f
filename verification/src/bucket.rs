//! Transient resource containers and the accounting rules they obey.
use vstd::prelude::*;

use crate::types::{Address, Amount, Bid};

verus! {

/// An error raised by a bucket or vault accounting operation. Accounting
/// errors are always reported to the caller and never leave a partial
/// mutation behind.
#[derive(Debug, Clone, Copy, PartialEq, Eq, Structural)]
pub enum BucketError {
    MismatchingResourceType,
    InsufficientBalance,
    ReferenceCountUnderflow,
    UnauthorizedAccess,
}

/// The mathematical model of a bucket: a quantity of one resource.
pub struct BucketV {
    pub amount: nat,
    pub resource: Address,
}

/// What `Bucket::put` computes, at the model level: amounts of the same
/// resource accumulate; a resource mismatch is rejected with no change.
pub open spec fn bucket_put(b: BucketV, other: BucketV) -> Result<BucketV, BucketError> {
    if b.resource != other.resource {
        Err(BucketError::MismatchingResourceType)
    } else {
        Ok(BucketV { amount: b.amount + other.amount, resource: b.resource })
    }
}

/// What `Bucket::take` computes, at the model level: on success the pair is
/// (what remains, what was taken); asking for more than the balance is
/// rejected with no change.
pub open spec fn bucket_take(b: BucketV, n: nat) -> Result<(BucketV, BucketV), BucketError> {
    if b.amount < n {
        Err(BucketError::InsufficientBalance)
    } else {
        Ok(
            (
                BucketV { amount: (b.amount - n) as nat, resource: b.resource },
                BucketV { amount: n, resource: b.resource },
            ),
        )
    }
}

/// A bucket is a transient container of resources; it exists only within one
/// transaction's call stack.
#[derive(Debug, Clone, Copy)]
pub struct Bucket {
    amount: Amount,
    resource: Address,
}

impl View for Bucket {
    type V = BucketV;

    closed spec fn view(&self) -> BucketV {
        BucketV { amount: self.amount as nat, resource: self.resource }
    }
}

impl Bucket {
    pub fn new(amount: Amount, resource: Address) -> (b: Self)
        ensures
            b@ == (BucketV { amount: amount as nat, resource }),
    {
        Self { amount, resource }
    }

    /// Merges `other` into this bucket. The two resource addresses must
    /// agree; otherwise the error is reported and this bucket is unchanged.
    pub fn put(&mut self, other: Self) -> (r: Result<(), BucketError>)
        requires
            old(self)@.resource == other@.resource ==> old(self)@.amount + other@.amount
                <= Amount::MAX,
        ensures
            match bucket_put(old(self)@, other@) {
                Ok(b) => r is Ok && final(self)@ == b,
                Err(e) => r == Err::<(), BucketError>(e) && final(self)@ == old(self)@,
            },
    {
        if self.resource != other.resource {
            Err(BucketError::MismatchingResourceType)
        } else {
            self.amount += other.amount;
            Ok(())
        }
    }

    /// Splits `amount` out of this bucket. Asking for more than the balance
    /// is reported as insufficient and leaves the balance unchanged.
    pub fn take(&mut self, amount: Amount) -> (r: Result<Self, BucketError>)
        ensures
            match bucket_take(old(self)@, amount as nat) {
                Ok(pair) => {
                    &&& r is Ok
                    &&& final(self)@ == pair.0
                    &&& r->Ok_0@ == pair.1
                },
                Err(e) => r == Err::<Bucket, BucketError>(e) && final(self)@ == old(self)@,
            },
    {
        if self.amount < amount {
            Err(BucketError::InsufficientBalance)
        } else {
            self.amount -= amount;
            Ok(Self::new(amount, self.resource))
        }
    }

    pub closed spec fn spec_amount(&self) -> Amount {
        self.amount
    }

    #[verifier::when_used_as_spec(spec_amount)]
    pub fn amount(&self) -> (r: Amount)
        ensures
            r as nat == self@.amount,
    {
        self.amount
    }

    pub closed spec fn spec_resource(&self) -> Address {
        self.resource
    }

    #[verifier::when_used_as_spec(spec_resource)]
    pub fn resource(&self) -> (r: Address)
        ensures
            r == self@.resource,
    {
        self.resource
    }
}

/// Law: taking `n` from a bucket and putting the taken bucket back restores
/// the original balance exactly — splitting conserves the total.
pub proof fn lemma_take_put_round_trip(b: BucketV, n: nat)
    requires
        n <= b.amount,
    ensures
        bucket_take(b, n) is Ok,
        ({
            let pair = bucket_take(b, n)->Ok_0;
            bucket_put(pair.0, pair.1) == Ok::<BucketV, BucketError>(b)
        }),
{
}

/// Law: a take of more than the balance always fails with
/// insufficient-balance, and a put of a mismatching resource always fails
/// with a resource-type mismatch; neither changes the bucket.
pub proof fn lemma_accounting_failures(b: BucketV, other: BucketV, n: nat)
    ensures
        n > b.amount ==> bucket_take(b, n) == Err::<(BucketV, BucketV), BucketError>(
            BucketError::InsufficientBalance,
        ),
        other.resource != b.resource ==> bucket_put(b, other) == Err::<BucketV, BucketError>(
            BucketError::MismatchingResourceType,
        ),
{
}

/// A bucket that has been borrowed: it stays locked under its id until all
/// outstanding references are dropped.
#[derive(Debug, Clone, Copy)]
pub struct LockedBucket {
    bucket_id: Bid,
    bucket: Bucket,
}

/// The model of a locked bucket: the id it was locked under and its contents.
pub struct LockedBucketV {
    pub bucket_id: Bid,
    pub bucket: BucketV,
}

impl View for LockedBucket {
    type V = LockedBucketV;

    closed spec fn view(&self) -> LockedBucketV {
        LockedBucketV { bucket_id: self.bucket_id, bucket: self.bucket@ }
    }
}

impl LockedBucket {
    pub fn new(bucket_id: Bid, bucket: Bucket) -> (r: Self)
        ensures
            r@ == (LockedBucketV { bucket_id, bucket: bucket@ }),
    {
        Self { bucket_id, bucket }
    }

    pub fn bucket_id(&self) -> (r: Bid)
        ensures
            r == self@.bucket_id,
    {
        self.bucket_id
    }

    pub fn bucket(&self) -> (r: &Bucket)
        ensures
            r@ == self@.bucket,
    {
        &self.bucket
    }

    /// Unwraps the locked bucket once its references are gone.
    pub fn into_bucket(self) -> (r: Bucket)
        ensures
            r@ == self@.bucket,
    {
        self.bucket
    }
}

/// A vault whose mutating operations a single requester address may perform.
#[derive(Debug, Clone, Copy)]
pub struct Vault {
    bucket: Bucket,
    auth: Address,
}

/// The model of a single-authority vault.
pub struct SealedVaultV {
    pub bucket: BucketV,
    pub auth: Address,
}

impl View for Vault {
    type V = SealedVaultV;

    closed spec fn view(&self) -> SealedVaultV {
        SealedVaultV { bucket: self.bucket@, auth: self.auth }
    }
}

impl Vault {
    pub fn new(bucket: Bucket, auth: Address) -> (r: Self)
        ensures
            r@ == (SealedVaultV { bucket: bucket@, auth }),
    {
        Self { bucket, auth }
    }

    /// Merges `other` into the vault, provided the requester is the bound
    /// authority; any other requester is rejected before any mutation.
    pub fn put(&mut self, other: Bucket, requester: Address) -> (r: Result<(), BucketError>)
        requires
            (requester == old(self)@.auth && old(self)@.bucket.resource == other@.resource)
                ==> old(self)@.bucket.amount + other@.amount <= Amount::MAX,
        ensures
            final(self)@.auth == old(self)@.auth,
            requester != old(self)@.auth ==> r == Err::<(), BucketError>(
                BucketError::UnauthorizedAccess,
            ) && final(self)@ == old(self)@,
            requester == old(self)@.auth ==> match bucket_put(old(self)@.bucket, other@) {
                Ok(b) => r is Ok && final(self)@.bucket == b,
                Err(e) => r == Err::<(), BucketError>(e) && final(self)@ == old(self)@,
            },
    {
        if requester == self.auth {
            self.bucket.put(other)
        } else {
            Err(BucketError::UnauthorizedAccess)
        }
    }

    /// Splits `amount` out of the vault, under the same authority check.
    pub fn take(&mut self, amount: Amount, requester: Address) -> (r: Result<Bucket, BucketError>)
        ensures
            final(self)@.auth == old(self)@.auth,
            requester != old(self)@.auth ==> r == Err::<Bucket, BucketError>(
                BucketError::UnauthorizedAccess,
            ) && final(self)@ == old(self)@,
            requester == old(self)@.auth ==> match bucket_take(old(self)@.bucket, amount as nat) {
                Ok(pair) => {
                    &&& r is Ok
                    &&& final(self)@.bucket == pair.0
                    &&& r->Ok_0@ == pair.1
                },
                Err(e) => r == Err::<Bucket, BucketError>(e) && final(self)@ == old(self)@,
            },
    {
        if requester == self.auth {
            self.bucket.take(amount)
        } else {
            Err(BucketError::UnauthorizedAccess)
        }
    }

    pub fn amount(&self) -> (r: Amount)
        ensures
            r as nat == self@.bucket.amount,
    {
        self.bucket.amount()
    }

    pub fn resource(&self) -> (r: Address)
        ensures
            r == self@.bucket.resource,
    {
        self.bucket.resource()
    }
}

} // verus!
