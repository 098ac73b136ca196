use sn_node::blob::{Blob, BlobAddress, PrivateBlob, PublicBlob};
use sn_node::keys::PublicKey;
use sn_node::messaging::MessageId;
use sn_node::name::{NameOrder, XorName};
use sn_node::name_map::NameMap;
use sn_node::token::Token;

fn name(first: u8, last: u8) -> XorName {
    let mut bytes = [0u8; 32];
    bytes[0] = first;
    bytes[31] = last;
    XorName(bytes)
}

fn hex(bytes: &[u8]) -> String {
    let mut text = String::new();
    for byte in bytes {
        text.push_str(&format!("{:02x}", byte));
    }
    text
}

#[test]
fn token_from_and_as_nano() {
    assert_eq!(Token::from_nano(0).as_nano(), 0);
    assert_eq!(Token::from_nano(17).as_nano(), 17);
    assert_eq!(Token::from_nano(u64::MAX).as_nano(), u64::MAX);
    assert_eq!(Token::zero(), Token::from_nano(0));
}

#[test]
fn token_checked_add_fails_on_overflow() {
    let a = Token::from_nano(u64::MAX - 1);
    assert_eq!(a.checked_add(Token::from_nano(1)), Some(Token::from_nano(u64::MAX)));
    assert_eq!(a.checked_add(Token::from_nano(2)), None);
    assert_eq!(
        Token::from_nano(3).checked_add(Token::from_nano(4)),
        Some(Token::from_nano(7))
    );
}

#[test]
fn token_checked_sub_fails_on_underflow() {
    let a = Token::from_nano(5);
    assert_eq!(a.checked_sub(Token::from_nano(5)), Some(Token::zero()));
    assert_eq!(a.checked_sub(Token::from_nano(2)), Some(Token::from_nano(3)));
    assert_eq!(a.checked_sub(Token::from_nano(6)), None);
}

#[test]
fn names_are_ordered_by_their_bytes() {
    let low = name(0, 9);
    let mid = name(1, 0);
    let high = name(1, 1);
    assert_eq!(low.order(&mid), NameOrder::Before);
    assert_eq!(mid.order(&low), NameOrder::After);
    assert_eq!(mid.order(&high), NameOrder::Before);
    assert_eq!(high.order(&high), NameOrder::Same);
    assert!(high.same(&name(1, 1)));
    assert!(!high.same(&mid));
    // The verified order is the order that the derived comparison gives.
    assert!(low < mid && mid < high);
}

#[test]
fn content_name_is_the_sha3_digest() {
    let empty = XorName::from_content(&Vec::new(), &Vec::new());
    assert_eq!(
        hex(&empty.0),
        "a7ffc6f8bf1ed76651c14756a061d662f580ff4de43b49fa82d80a4b80f8434a"
    );
    let abc = XorName::from_content(&b"abc".to_vec(), &Vec::new());
    assert_eq!(
        hex(&abc.0),
        "3a985da74fe225b2045c172d6bd390bd855f086e3e9d525b46bfe24511431532"
    );
}

#[test]
fn content_name_depends_on_the_joined_parts_only() {
    let joined = XorName::from_content(&b"abcdefghijk".to_vec(), &Vec::new());
    let split = XorName::from_content(&b"abcdefg".to_vec(), &b"hijk".to_vec());
    let other = XorName::from_content(&b"abcdefg".to_vec(), &Vec::new());
    assert_eq!(joined, split);
    assert_ne!(joined, other);
    let outside = xor_name::XorName::from_content(&[b"abcdefg", b"hijk"]);
    assert_eq!(split.0, outside.0);
}

#[test]
fn public_keys_compare_by_kind_and_bytes() {
    let a = PublicKey::Ed25519([7; 32]);
    let b = PublicKey::Ed25519([7; 32]);
    let c = PublicKey::Ed25519([8; 32]);
    let d = PublicKey::Bls([7; 48]);
    let e = PublicKey::BlsShare([7; 48]);
    assert!(a.same(&b));
    assert!(!a.same(&c));
    assert!(!a.same(&d));
    assert!(!d.same(&e));
    assert!(d.same(&PublicKey::Bls([7; 48])));
    assert_eq!(a.to_bytes(), vec![7u8; 32]);
    assert_eq!(d.to_bytes(), vec![7u8; 48]);
    assert_eq!(e.to_bytes().len(), 48);
}

#[test]
fn message_id_in_response_to_is_derived_from_the_id() {
    let src = MessageId::with([3; 32]);
    let first = MessageId::in_response_to(&src);
    let second = MessageId::in_response_to(&src);
    assert_eq!(first, second);
    assert_ne!(first, src);
    assert_ne!(first, MessageId::in_response_to(&MessageId::with([4; 32])));
    let outside = sn_messaging::MessageId::in_response_to(&sn_messaging::MessageId::with([3; 32]));
    assert_eq!(&first.bytes(), outside.as_ref());
    let digest = xor_name::XorName::from_content(&[&[3u8; 32]]);
    assert_eq!(first.bytes(), digest.0);
}

#[test]
fn message_id_with_keeps_the_bytes() {
    let mut bytes = [0u8; 32];
    bytes[5] = 9;
    assert_eq!(MessageId::with(bytes).bytes(), bytes);
}

#[test]
fn new_message_ids_differ() {
    let a = MessageId::new();
    let b = MessageId::new();
    assert_ne!(a, b);
}

#[test]
fn name_map_keeps_entries_in_name_order() {
    let mut map: NameMap<u32> = NameMap::new();
    assert!(map.is_empty());
    assert_eq!(map.insert(name(2, 0), 20), None);
    assert_eq!(map.insert(name(1, 0), 10), None);
    assert_eq!(map.insert(name(3, 0), 30), None);
    assert_eq!(map.len(), 3);
    assert_eq!(map.name_at(0), name(1, 0));
    assert_eq!(map.name_at(1), name(2, 0));
    assert_eq!(map.name_at(2), name(3, 0));
    assert_eq!(*map.value_at(1), 20);
    assert_eq!(map.position(&name(3, 0)), Some(2));
    assert_eq!(map.position(&name(4, 0)), None);
}

#[test]
fn name_map_insert_replaces_and_returns_the_old_value() {
    let mut map: NameMap<u32> = NameMap::new();
    assert_eq!(map.insert(name(1, 0), 10), None);
    assert_eq!(map.insert(name(1, 0), 11), Some(10));
    assert_eq!(map.len(), 1);
    assert_eq!(map.get(&name(1, 0)), Some(&11));
    assert!(map.contains_key(&name(1, 0)));
    assert!(!map.contains_key(&name(1, 1)));
    assert_eq!(map.get(&name(1, 1)), None);
}

#[test]
fn name_map_remove_takes_the_entry_out() {
    let mut map: NameMap<u32> = NameMap::new();
    let _ = map.insert(name(1, 0), 10);
    let _ = map.insert(name(2, 0), 20);
    assert_eq!(map.remove(&name(3, 0)), None);
    assert_eq!(map.remove(&name(1, 0)), Some(10));
    assert_eq!(map.remove(&name(1, 0)), None);
    assert_eq!(map.len(), 1);
    assert_eq!(map.name_at(0), name(2, 0));
}

#[test]
fn public_blob_is_addressed_by_its_bytes() {
    let value = b"hello".to_vec();
    let blob = PublicBlob::new(value.clone());
    let expected = XorName::from_content(&value, &Vec::new());
    assert_eq!(*blob.address(), BlobAddress::Public(expected));
    assert_eq!(blob.name(), expected);
    assert_eq!(blob.value(), &value);
    let outside = sn_data_types::PublicBlob::new(value.clone());
    assert_eq!(blob.name().0, outside.name().0);
    let blob = Blob::Public(blob);
    assert!(blob.is_public());
    assert!(!blob.is_private());
    assert_eq!(blob.owner(), None);
    assert_eq!(blob.value(), &value);
}

#[test]
fn private_blob_is_addressed_by_its_bytes_and_owner() {
    let value = b"hello".to_vec();
    let owner = PublicKey::Ed25519([1; 32]);
    let other = PublicKey::Ed25519([2; 32]);
    let blob = PrivateBlob::new(value.clone(), owner);
    let expected = XorName::from_content(&value, &owner.to_bytes());
    assert_eq!(*blob.address(), BlobAddress::Private(expected));
    assert_eq!(*blob.owner(), owner);
    assert_ne!(blob.name(), PrivateBlob::new(value.clone(), other).name());
    assert_ne!(blob.name(), PublicBlob::new(value.clone()).name());
    let blob = Blob::Private(blob);
    assert!(blob.is_private());
    assert!(!blob.is_public());
    assert_eq!(blob.owner(), Some(&owner));
    assert_eq!(blob.name(), expected);
    assert_eq!(blob.clone(), blob);
}

#[test]
fn private_blob_address_is_that_of_the_outside_type() {
    let secret = threshold_crypto::SecretKey::random();
    let public = secret.public_key();
    let value = b"immutable data value".to_vec();
    let outside =
        sn_data_types::PrivateBlob::new(value.clone(), sn_data_types::PublicKey::Bls(public));
    let blob = PrivateBlob::new(value, PublicKey::Bls(public.to_bytes()));
    assert_eq!(blob.name().0, outside.name().0);
}

#[test]
fn blob_address_kinds() {
    let n = name(1, 2);
    assert!(BlobAddress::Public(n).is_public());
    assert!(!BlobAddress::Public(n).is_private());
    assert!(BlobAddress::Private(n).is_private());
    assert_eq!(BlobAddress::Private(n).name(), n);
    assert!(BlobAddress::Public(n).same(&BlobAddress::Public(n)));
    assert!(!BlobAddress::Public(n).same(&BlobAddress::Private(n)));
    assert!(!BlobAddress::Public(n).same(&BlobAddress::Public(name(1, 3))));
}
