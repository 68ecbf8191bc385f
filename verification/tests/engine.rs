//! The transaction overlay, the call engine and the client handles,
//! exercised end to end over the in-memory ledger.
use radix_engine::auth::Auth;
use radix_engine::blueprint::Blueprint;
use radix_engine::bucket::Bucket;
use radix_engine::component::Component;
use radix_engine::handles;
use radix_engine::ledger::{InMemoryLedger, Ledger};
use radix_engine::process::{move_buckets, settle_transaction, FrameState, Process, RuntimeError};
use radix_engine::track::Track;
use radix_engine::types::{Address, Bid, EntityId, Level, Rid, Vid, H256};
use radix_engine::vault::Vault;

fn hash(n: u64) -> H256 {
    H256 { w0: n, w1: 0, w2: 0, w3: 0 }
}

fn resource(n: u32) -> Address {
    Address::ResourceDef(EntityId { hash: hash(1), index: n })
}

fn badge(n: u32) -> Address {
    Address::ResourceDef(EntityId { hash: hash(2), index: n })
}

fn component_address(n: u32) -> Address {
    Address::Component(EntityId { hash: hash(3), index: n })
}

#[test]
fn test_commit_writes_exactly_dirty_entities() {
    let mut ledger = InMemoryLedger::new();
    let a = component_address(0);
    let b = component_address(1);
    let c = component_address(2);
    ledger.put_component(b, Component::new(a, String::from("left"), vec![1]));
    ledger.put_component(c, Component::new(a, String::from("right"), vec![2]));

    let mut track = Track::new(ledger, 0, hash(9));
    // written with put: dirty
    track.put_component(a, Component::new(a, String::from("fresh"), vec![3]));
    // only read: never written back
    assert!(track.get_component(b).is_some());
    // read mutably: written back even though nothing changed
    track.get_component_mut(c).unwrap().set_state(vec![9, 9]);
    track.commit();

    let ledger = track.into_ledger();
    assert_eq!(ledger.get_component(a).unwrap().state(), &[3]);
    assert_eq!(ledger.get_component(b).unwrap().state(), &[1]);
    assert_eq!(ledger.get_component(c).unwrap().state(), &[9, 9]);
}

#[test]
fn test_read_only_entities_never_written() {
    let mut ledger = InMemoryLedger::new();
    let b = component_address(1);
    ledger.put_component(b, Component::new(component_address(0), String::from("x"), vec![1]));

    let mut track = Track::new(ledger, 0, hash(9));
    assert!(track.get_component(b).is_some());
    // a missing entity read mutably is not marked dirty either
    assert!(track.get_component_mut(component_address(7)).is_none());
    track.commit();
    let ledger = track.into_ledger();
    assert_eq!(ledger.get_component(b).unwrap().state(), &[1]);
    assert!(ledger.get_component(component_address(7)).is_none());
}

#[test]
fn test_abort_leaves_ledger_untouched() {
    let mut ledger = InMemoryLedger::new();
    let vid = Vid(hash(4), 0);
    ledger.put_vault(vid, Vault::new(Bucket::new(10, resource(0)), badge(0)));

    let mut track = Track::new(ledger, 0, hash(9));
    track.put_component(
        component_address(0),
        Component::new(component_address(1), String::from("new"), vec![1]),
    );
    let auth = Auth::with_badges(vec![badge(0)]);
    track.get_vault_mut(vid).unwrap().put(Bucket::new(5, resource(0)), &auth).unwrap();
    // the transaction aborts: commit never runs
    let ledger = track.into_ledger();
    assert!(ledger.get_component(component_address(0)).is_none());
    let mut v = ledger.get_vault(vid).unwrap();
    assert_eq!(v.take(10, &auth).unwrap().amount(), 10);
}

#[test]
fn test_track_ids_and_logs() {
    let mut track = Track::new(InMemoryLedger::new(), 7, hash(5));
    assert_eq!(track.current_epoch(), 7);
    assert_eq!(track.tx_hash(), hash(5));
    let p = track.new_package_address();
    let c = track.new_component_address();
    let r = track.new_resource_def_address();
    let bid = track.new_bid();
    let vid = track.new_vid();
    assert_eq!(p, Address::Package(EntityId { hash: hash(5), index: 0 }));
    assert_eq!(c, Address::Component(EntityId { hash: hash(5), index: 1 }));
    assert_eq!(r, Address::ResourceDef(EntityId { hash: hash(5), index: 2 }));
    assert_eq!(bid, Bid(3));
    assert_eq!(vid, Vid(hash(5), 4));
    assert_eq!(track.new_entities(), &[p, c, r]);
    track.add_log(Level::Info, String::from("hello"));
    assert_eq!(track.logs().len(), 1);
    assert_eq!(track.logs()[0].0, Level::Info);
    assert_eq!(track.logs()[0].1, "hello");
}

#[test]
fn test_frame_conservation_across_call() {
    // A caller owns a bucket of 100 and a vault; the callee receives the
    // bucket, deposits 30 into the caller's vault and returns the rest.
    // The caller's total holdings are unchanged.
    let mut ledger = InMemoryLedger::new();
    let vid = Vid(hash(4), 0);
    ledger.put_vault(vid, Vault::new(Bucket::new(0, resource(0)), badge(0)));
    let mut track = Track::new(ledger, 0, hash(9));

    let mut caller = Process::new(0, false);
    let caller_bid = track.new_bid();
    caller.receive_bucket(caller_bid, Bucket::new(100, resource(0))).unwrap();

    // the callee frame, holding a badge that covers the vault authority
    let mut callee = Process::new(1, false);
    let badge_bid = track.new_bid();
    callee.receive_bucket(badge_bid, Bucket::new(1, badge(0))).unwrap();
    let badge_rid = track.new_rid();
    callee.create_reference(badge_bid, badge_rid).unwrap();

    // move the bucket from caller to callee
    let moved = caller.take_bucket(caller_bid).unwrap();
    callee.receive_bucket(caller_bid, moved).unwrap();

    // deposit a part and return the remainder
    let part_bid = track.new_bid();
    callee.take_from_bucket(caller_bid, 30, part_bid).unwrap();
    callee.put_into_vault(vid, part_bid, &mut track).unwrap();
    let back = callee.take_bucket(caller_bid).unwrap();
    assert_eq!(back.amount(), 70);
    caller.receive_bucket(caller_bid, back).unwrap();

    // caller's total for the resource: bucket + its vault
    let caller_bucket = caller.get_bucket(caller_bid).unwrap().amount();
    let auth = Auth::with_badges(vec![badge(0)]);
    let vault_amount = track.get_vault_mut(vid).unwrap().amount(&auth).unwrap();
    assert_eq!(caller_bucket + vault_amount, 100);
}

#[test]
fn test_vault_access_needs_badges() {
    let mut ledger = InMemoryLedger::new();
    let vid = Vid(hash(4), 0);
    ledger.put_vault(vid, Vault::new(Bucket::new(10, resource(0)), badge(0)));
    let mut track = Track::new(ledger, 0, hash(9));

    let mut frame = Process::new(0, false);
    let bid = track.new_bid();
    frame.receive_bucket(bid, Bucket::new(5, resource(0))).unwrap();
    // no badge: the deposit is rejected and the bucket stays owned
    assert!(matches!(
        frame.put_into_vault(vid, bid, &mut track),
        Err(RuntimeError::VaultError(_))
    ));
    assert_eq!(frame.get_bucket(bid).unwrap().amount(), 5);

    // with the badge the deposit goes through
    let badge_bid = track.new_bid();
    frame.receive_bucket(badge_bid, Bucket::new(1, badge(0))).unwrap();
    let rid = track.new_rid();
    frame.create_reference(badge_bid, rid).unwrap();
    frame.put_into_vault(vid, bid, &mut track).unwrap();
    assert!(frame.get_bucket(bid).is_none());

    // and a withdrawal comes back out
    let out_bid = track.new_bid();
    frame.take_from_vault(vid, 15, out_bid, &mut track).unwrap();
    assert_eq!(frame.get_bucket(out_bid).unwrap().amount(), 15);
}

#[test]
fn test_resource_leak_aborts_frame() {
    let mut frame = Process::new(0, false);
    frame.start();
    frame.receive_bucket(Bid(0), Bucket::new(3, resource(0))).unwrap();
    assert_eq!(frame.finalize(), Err(RuntimeError::ResourceLeak));
    assert_eq!(frame.state(), FrameState::Aborted);
}

#[test]
fn test_outstanding_reference_is_a_leak() {
    let mut frame = Process::new(0, false);
    frame.start();
    frame.receive_bucket(Bid(0), Bucket::new(0, resource(0))).unwrap();
    frame.create_reference(Bid(0), Rid(1)).unwrap();
    assert_eq!(frame.finalize(), Err(RuntimeError::ResourceLeak));
    assert_eq!(frame.state(), FrameState::Aborted);
}

#[test]
fn test_empty_frame_finalizes_cleanly() {
    let mut frame = Process::new(0, false);
    frame.start();
    frame.receive_bucket(Bid(0), Bucket::new(0, resource(0))).unwrap();
    assert_eq!(frame.finalize(), Ok(()));
    assert_eq!(frame.state(), FrameState::Succeeded);
    frame.retire();
    assert_eq!(frame.state(), FrameState::Finalized);
}

#[test]
fn test_references_lock_and_unlock() {
    let mut frame = Process::new(0, false);
    frame.receive_bucket(Bid(0), Bucket::new(5, resource(0))).unwrap();
    frame.create_reference(Bid(0), Rid(1)).unwrap();
    // the locked bucket cannot be moved or spent
    assert!(matches!(frame.take_bucket(Bid(0)), Err(RuntimeError::BucketLocked(_))));
    // a second reference to the same bucket
    frame.create_reference(Bid(0), Rid(2)).unwrap();
    frame.drop_reference(Rid(1)).unwrap();
    assert!(matches!(frame.take_bucket(Bid(0)), Err(RuntimeError::BucketLocked(_))));
    frame.drop_reference(Rid(2)).unwrap();
    // all references gone: the bucket unlocks
    assert_eq!(frame.take_bucket(Bid(0)).unwrap().amount(), 5);
    // dropping more than was taken underflows the reference count
    assert!(frame.drop_reference(Rid(2)).is_err());
}

#[test]
fn test_client_handles() {
    let mut track = Track::new(InMemoryLedger::new(), 0, hash(9));
    let mut frame = Process::new(0, false);

    // build a fixed-supply resource: the whole supply lands in the frame
    let mut builder = handles::ResourceBuilder::new();
    builder
        .metadata(String::from("name"), String::from("token"))
        .metadata(String::from("symbol"), String::from("TOK"));
    let supply = builder.create_fixed(1000, &mut frame, &mut track).unwrap();
    assert_eq!(supply.amount(&frame), Ok(1000));
    let token = supply.resource_def(&frame).unwrap();

    // split and merge through the handles
    let part = supply.take(400, &mut frame, &mut track).unwrap();
    assert_eq!(part.amount(&frame), Ok(400));
    assert_eq!(supply.amount(&frame), Ok(600));
    supply.put(part, &mut frame).unwrap();
    assert_eq!(supply.amount(&frame), Ok(1000));
    assert_eq!(supply.is_empty(&frame), Ok(false));

    // borrow a reference and check it as a badge
    let proof = supply.borrow(&mut frame, &mut track).unwrap();
    assert_eq!(proof.contains(token, &frame), Ok(true));
    assert_eq!(proof.amount(&frame), Ok(1000));
    assert_eq!(proof.resource_def(&frame), Ok(token));
    assert_eq!(proof.is_empty(&frame), Ok(false));
    proof.check(token, &mut frame).unwrap();

    // a mutable resource definition registered on the overlay
    let minted = builder.create_mutable(badge(0), &mut track);
    assert!(track.get_resource_def(minted).is_some());

    // an empty bucket of the new resource
    let empty = handles::Bucket::new(minted, &mut frame, &mut track).unwrap();
    assert_eq!(empty.is_empty(&frame), Ok(true));

    // burning consumes the bucket; a fixed-supply bucket is not burnable
    assert!(supply.burn(&mut frame, &mut track).is_err());
    assert!(frame.get_bucket(supply.bid()).is_some());
    empty.burn(&mut frame, &mut track).unwrap();
    assert!(frame.get_bucket(empty.bid()).is_none());
}

#[test]
fn test_package_publishes_blueprint() {
    let mut track = Track::new(InMemoryLedger::new(), 0, hash(9));
    let published = radix_engine::package::Package::new(&[1, 2, 3], &mut track);
    assert_eq!(track.get_package(published.address()).unwrap().code(), &[1, 2, 3]);
    track.put_package(published.address(), Blueprint::new(vec![4]));
    track.commit();
    let ledger = track.into_ledger();
    assert_eq!(ledger.get_package(published.address()).unwrap().code(), &[4]);
}

#[test]
fn test_load_module_parses_and_caches() {
    let mut track = Track::new(InMemoryLedger::new(), 0, hash(9));
    // the smallest valid bytecode module: magic number and version
    let wasm = vec![0x00, 0x61, 0x73, 0x6d, 0x01, 0x00, 0x00, 0x00];
    let good = radix_engine::package::Package::new(&wasm, &mut track);
    let bad = radix_engine::package::Package::new(&[1, 2, 3], &mut track);

    assert!(track.load_module(good.address()).is_some());
    // served again, now from the cache
    assert!(track.load_module(good.address()).is_some());
    // invalid code never yields a module
    assert!(track.load_module(bad.address()).is_none());
    // an unpublished address has nothing to load
    assert!(track.load_module(component_address(9)).is_none());
}

#[test]
fn test_start_process_root_frame() {
    let track = Track::new(InMemoryLedger::new(), 0, hash(1));
    let mut frame = track.start_process(true);
    assert_eq!(frame.depth(), 0);
    assert!(frame.trace());
    assert_eq!(frame.state(), FrameState::Created);
    frame.start();
    assert_eq!(frame.state(), FrameState::Running);
}

#[test]
fn test_settle_commits_only_clean_transactions() {
    // a clean transaction commits its effects
    let mut track = Track::new(InMemoryLedger::new(), 0, hash(1));
    let addr = component_address(0);
    track.put_component(addr, Component::new(addr, String::from("a"), vec![1]));
    let mut frame = Process::new(0, false);
    frame.start();
    let (ledger, outcome) = settle_transaction(track, &mut frame);
    assert_eq!(outcome, Ok(()));
    assert_eq!(frame.state(), FrameState::Finalized);
    assert!(ledger.get_component(addr).is_some());

    // a leaking transaction discards everything it touched
    let mut track = Track::new(ledger, 0, hash(2));
    let other = component_address(1);
    track.put_component(other, Component::new(other, String::from("b"), vec![2]));
    let mut frame = Process::new(0, false);
    frame.start();
    frame.receive_bucket(Bid(0), radix_engine::bucket::Bucket::new(5, resource(0))).unwrap();
    let (ledger, outcome) = settle_transaction(track, &mut frame);
    assert_eq!(outcome, Err(RuntimeError::ResourceLeak));
    assert!(ledger.get_component(other).is_none());
    assert!(ledger.get_component(addr).is_some());
}

#[test]
fn test_move_buckets_is_all_or_nothing() {
    let mut from = Process::new(0, false);
    let mut to = Process::new(1, false);
    from.receive_bucket(Bid(0), radix_engine::bucket::Bucket::new(3, resource(0))).unwrap();
    from.receive_bucket(Bid(1), radix_engine::bucket::Bucket::new(4, resource(0))).unwrap();

    // one id is not owned: nothing moves
    assert!(matches!(
        move_buckets(&mut from, &mut to, &vec![Bid(0), Bid(7)]),
        Err(RuntimeError::BucketNotFound(Bid(7)))
    ));
    assert!(from.get_bucket(Bid(0)).is_some());
    assert!(to.get_bucket(Bid(0)).is_none());

    // a duplicate id in the list: nothing moves
    assert!(matches!(
        move_buckets(&mut from, &mut to, &vec![Bid(0), Bid(0)]),
        Err(RuntimeError::DuplicateBucket(Bid(0)))
    ));
    assert!(from.get_bucket(Bid(0)).is_some());

    // a clean move carries both buckets across
    move_buckets(&mut from, &mut to, &vec![Bid(0), Bid(1)]).unwrap();
    assert!(from.get_bucket(Bid(0)).is_none());
    assert_eq!(to.get_bucket(Bid(0)).unwrap().amount(), 3);
    assert_eq!(to.get_bucket(Bid(1)).unwrap().amount(), 4);
}
