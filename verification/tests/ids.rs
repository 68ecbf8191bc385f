//! Identifier derivation, byte encodings and hex spellings.
use radix_engine::hexstr::hex_encode;
use radix_engine::id_allocator::IdAllocator;
use radix_engine::types::{Address, EntityId, ParseVidError, Vid, H256};

fn hash(n: u64) -> H256 {
    H256 { w0: n, w1: 0, w2: 0, w3: n }
}

#[test]
fn test_ids_never_reissued() {
    // one allocator per transaction, distinct strictly increasing hashes
    let mut addresses: Vec<Address> = Vec::new();
    let mut vids: Vec<Vid> = Vec::new();
    for tx in 1u64..=3 {
        let mut alloc = IdAllocator::new();
        for _ in 0..4 {
            addresses.push(alloc.new_package_address(hash(tx)));
            vids.push(alloc.new_vid(hash(tx)));
        }
    }
    for i in 0..addresses.len() {
        for j in (i + 1)..addresses.len() {
            assert_ne!(addresses[i], addresses[j]);
            assert_ne!(vids[i], vids[j]);
        }
    }
}

#[test]
fn test_allocator_is_reproducible() {
    let mut a = IdAllocator::new();
    let mut b = IdAllocator::new();
    assert_eq!(a.new_bid(), b.new_bid());
    assert_eq!(a.new_rid(), b.new_rid());
    assert_eq!(a.new_vid(hash(7)), b.new_vid(hash(7)));
    assert_eq!(
        a.new_component_address(hash(7)),
        b.new_component_address(hash(7))
    );
}

#[test]
fn test_address_embeds_hash_and_counter() {
    let mut alloc = IdAllocator::new();
    let a = alloc.new_resource_def_address(hash(7));
    assert_eq!(a, Address::ResourceDef(EntityId { hash: hash(7), index: 0 }));
}

#[test]
fn test_vid_byte_round_trip() {
    let v = Vid(hash(0x0102030405060708), 0xaabbccdd);
    let bytes = v.to_vec();
    assert_eq!(bytes.len(), 36);
    let back = Vid::try_from(bytes.as_slice()).unwrap();
    assert_eq!(back, v);
}

#[test]
fn test_vid_wrong_length() {
    match Vid::try_from(&[0u8; 35]) {
        Err(ParseVidError::InvalidLength(n)) => assert_eq!(n, 35),
        other => panic!("unexpected: {:?}", other),
    }
}

#[test]
fn test_vid_hex_round_trip() {
    let v = Vid(hash(99), 7);
    let spelled = v.to_hex();
    assert_eq!(spelled.len(), 72);
    let back = Vid::from_hex(spelled.as_str()).unwrap();
    assert_eq!(back, v);
}

#[test]
fn test_hex_rejects_bad_input() {
    assert!(matches!(Vid::from_hex("abc"), Err(ParseVidError::InvalidHex(_))));
    assert!(matches!(Vid::from_hex("zz"), Err(ParseVidError::InvalidHex(_))));
    assert!(matches!(Vid::from_hex("aabb"), Err(ParseVidError::InvalidLength(2))));
}

#[test]
fn test_hex_encode_is_lowercase_pairs() {
    assert_eq!(hex_encode(&[0x00, 0xff, 0x1a]), "00ff1a");
    assert_eq!(hex_encode(&[]), "");
}

#[test]
fn test_h256_bytes() {
    let h = H256 { w0: 1, w1: 0, w2: 0, w3: 0 };
    let bytes = h.to_vec();
    assert_eq!(bytes.len(), 32);
    assert_eq!(bytes[0], 1);
    assert!(bytes[1..].iter().all(|b| *b == 0));
}
