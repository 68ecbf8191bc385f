//! The resource model's accounting and authorization rules.
use radix_engine::auth::Auth;
use radix_engine::bucket;
use radix_engine::bucket::{Bucket, BucketError, LockedBucket};
use radix_engine::resource_def::{ResourceDef, Supply};
use radix_engine::types::{Address, Bid, EntityId, H256};
use radix_engine::vault::{Vault, VaultError};

fn hash(n: u64) -> H256 {
    H256 { w0: n, w1: 0, w2: 0, w3: 0 }
}

fn resource(n: u32) -> Address {
    Address::ResourceDef(EntityId { hash: hash(1), index: n })
}

fn badge(n: u32) -> Address {
    Address::ResourceDef(EntityId { hash: hash(2), index: n })
}

#[test]
fn test_take_put_round_trip() {
    let mut b = Bucket::new(100, resource(0));
    let taken = b.take(30).unwrap();
    assert_eq!(b.amount(), 70);
    assert_eq!(taken.amount(), 30);
    assert_eq!(taken.resource(), resource(0));
    b.put(taken).unwrap();
    assert_eq!(b.amount(), 100);
}

#[test]
fn test_take_insufficient_balance() {
    let mut b = Bucket::new(5, resource(0));
    assert!(matches!(b.take(6), Err(BucketError::InsufficientBalance)));
    assert_eq!(b.amount(), 5);
}

#[test]
fn test_put_mismatching_resource() {
    let mut b = Bucket::new(5, resource(0));
    let other = Bucket::new(1, resource(1));
    assert_eq!(b.put(other), Err(BucketError::MismatchingResourceType));
    assert_eq!(b.amount(), 5);
    assert_eq!(b.resource(), resource(0));
}

#[test]
fn test_locked_bucket() {
    let locked = LockedBucket::new(Bid(9), Bucket::new(4, resource(0)));
    assert_eq!(locked.bucket_id(), Bid(9));
    assert_eq!(locked.bucket().amount(), 4);
    let back = locked.into_bucket();
    assert_eq!(back.amount(), 4);
}

#[test]
fn test_sealed_vault_requester() {
    let mut v = bucket::Vault::new(Bucket::new(50, resource(0)), badge(0));
    assert!(matches!(v.take(10, badge(1)), Err(BucketError::UnauthorizedAccess)));
    assert_eq!(v.amount(), 50);
    let taken = v.take(10, badge(0)).unwrap();
    assert_eq!(taken.amount(), 10);
    assert_eq!(v.amount(), 40);
    assert_eq!(v.put(taken, badge(1)), Err(BucketError::UnauthorizedAccess));
    assert_eq!(v.amount(), 40);
}

#[test]
fn test_vault_unauthorized_never_mutates() {
    let mut v = Vault::new(Bucket::new(50, resource(0)), badge(0));
    let wrong = Auth::with_badges(vec![badge(1), badge(2)]);
    let right = Auth::with_badges(vec![badge(0)]);

    assert!(matches!(v.take(10, &wrong), Err(VaultError::UnauthorizedAccess)));
    assert_eq!(
        v.put(Bucket::new(1, resource(0)), &wrong),
        Err(VaultError::UnauthorizedAccess)
    );
    assert_eq!(v.amount(&wrong), Err(VaultError::UnauthorizedAccess));
    assert_eq!(v.resource_def(&wrong), Err(VaultError::UnauthorizedAccess));
    // the balance is exactly what it was before the failed attempts
    assert_eq!(v.amount(&right), Ok(50));
}

#[test]
fn test_vault_authorized_accounting() {
    let mut v = Vault::new(Bucket::new(50, resource(0)), badge(0));
    let auth = Auth::with_badges(vec![badge(0)]);
    let taken = v.take(20, &auth).unwrap();
    assert_eq!(taken.amount(), 20);
    assert_eq!(v.amount(&auth), Ok(30));
    assert!(matches!(
        v.take(31, &auth),
        Err(VaultError::AccountingError(BucketError::InsufficientBalance))
    ));
    v.put(taken, &auth).unwrap();
    assert_eq!(v.amount(&auth), Ok(50));
    assert_eq!(
        v.put(Bucket::new(1, resource(1)), &auth),
        Err(VaultError::AccountingError(BucketError::MismatchingResourceType))
    );
}

#[test]
fn test_mint_requires_minter_badge() {
    let mut def = ResourceDef::new_mutable(resource(0), Vec::new(), badge(0));
    let wrong = Auth::with_badges(vec![badge(1)]);
    let right = Auth::with_badges(vec![badge(0)]);
    assert!(def.mint(10, &wrong).is_err());
    assert_eq!(def.total_supply(), 0);
    def.mint(10, &right).unwrap();
    assert_eq!(def.total_supply(), 10);
}

#[test]
fn test_fixed_supply_rejects_mint_and_burn() {
    let mut def = ResourceDef::new_fixed(resource(0), Vec::new(), 1000);
    let auth = Auth::with_badges(vec![badge(0)]);
    assert!(def.mint(1, &auth).is_err());
    assert!(def.burn(Bucket::new(1, resource(0))).is_err());
    assert_eq!(def.total_supply(), 1000);
}

#[test]
fn test_non_fungible_duplicate_id() {
    let mut def = ResourceDef::new_non_fungible(resource(0), Vec::new(), badge(0));
    let auth = Auth::with_badges(vec![badge(0)]);
    def.mint_non_fungible(0, &auth).unwrap();
    def.mint_non_fungible(1, &auth).unwrap();
    assert!(def.mint_non_fungible(1, &auth).is_err());
    assert!(def.mint_non_fungible(0, &auth).is_err());
    def.mint_non_fungible(7, &auth).unwrap();
    assert_eq!(def.total_supply(), 3);
    match def.supply_info() {
        Supply::NonFungible { total, next_id } => {
            assert_eq!(total, 3);
            assert_eq!(next_id, 8);
        }
        _ => panic!("wrong supply discipline"),
    }
}

#[test]
fn test_metadata_overwrites_per_name() {
    let mut def = ResourceDef::new_mutable(
        resource(0),
        vec![
            (String::from("name"), String::from("old")),
            (String::from("symbol"), String::from("TOK")),
            (String::from("name"), String::from("new")),
        ],
        badge(0),
    );
    // the latest entry for a name wins, as map insertion in order
    assert_eq!(
        def.metadata_lookup(&String::from("name")).map(|s| s.as_str()),
        Some("new")
    );
    assert_eq!(
        def.metadata_lookup(&String::from("symbol")).map(|s| s.as_str()),
        Some("TOK")
    );
    assert!(def.metadata_lookup(&String::from("missing")).is_none());
    let _ = &mut def;
}

#[test]
fn test_burn_decreases_supply() {
    let mut def = ResourceDef::new_mutable(resource(0), Vec::new(), badge(0));
    let auth = Auth::with_badges(vec![badge(0)]);
    def.mint(10, &auth).unwrap();
    def.burn(Bucket::new(4, resource(0))).unwrap();
    assert_eq!(def.total_supply(), 6);
    assert!(def.burn(Bucket::new(1, resource(1))).is_err());
    assert!(def.burn(Bucket::new(7, resource(0))).is_err());
    assert_eq!(def.total_supply(), 6);
}
