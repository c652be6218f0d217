//! Peer identities and addresses.

use litep2p::address::{known_addresses, with_peer, Multiaddr};
use litep2p::error::ParseError;
use litep2p::peer_id::{
    Multihash, PeerId, PublicKey, IDENTITY, MAX_DIGEST_LENGTH, MAX_INLINE_KEY_LENGTH, SHA2_256,
};

fn address(text: &str) -> Multiaddr {
    let address: multiaddr::Multiaddr = text.parse().unwrap();
    Multiaddr::from_bytes(address.to_vec()).unwrap()
}

#[test]
fn short_key_is_inlined() {
    let key = PublicKey::from_protobuf_encoding(vec![9; MAX_INLINE_KEY_LENGTH]);
    let bytes = key.to_peer_id().to_bytes();
    assert_eq!(bytes[0], 0x00);
    assert_eq!(bytes[1] as usize, MAX_INLINE_KEY_LENGTH);
    assert_eq!(&bytes[2..], &key.to_protobuf_encoding()[..]);
}

#[test]
fn long_key_is_hashed() {
    let key = PublicKey::from_protobuf_encoding(vec![9; MAX_INLINE_KEY_LENGTH + 1]);
    let bytes = PeerId::from_public_key(&key).to_bytes();
    assert_eq!(&bytes[..2], &[0x12, 32]);
    let digest = <sha2::Sha256 as sha2::Digest>::digest(key.to_protobuf_encoding());
    assert_eq!(&bytes[2..], digest.as_slice());
}

#[test]
fn identity_is_read_as_it_was_written() {
    let peer = PeerId::random();
    assert_eq!(PeerId::from_bytes(&peer.to_bytes()), Ok(peer));
    assert_eq!(PeerId::from_base58(&peer.to_base58()), Ok(peer));
    assert_ne!(peer, PeerId::random());
}

#[test]
fn base58_of_a_known_identity() {
    let peer = PeerId::from_random_bytes([0u8; 32]);
    let text = bs58::encode(peer.to_bytes()).into_string();
    assert_eq!(peer.to_base58(), text);
    let known = "12D3KooWGRUacXSqEjN9S1SDXsoAF9dWkj9rFmg1WmRNdyVbvNZb";
    assert_eq!(PeerId::from_base58(known).unwrap().to_base58(), known);
}

#[test]
fn text_that_is_no_identity() {
    assert_eq!(PeerId::from_base58("0OIl"), Err(ParseError::B58));
    let text = bs58::encode([1u8, 2, 3]).into_string();
    assert_eq!(PeerId::from_base58(&text), Err(ParseError::MultiHash));
    assert_eq!(PeerId::from_bytes(&[1, 2, 3]), Err(ParseError::MultiHash));
}

#[test]
fn hash_of_an_identity() {
    // a digest of SHA2-256 is one
    let multihash = Multihash::wrap(SHA2_256, &[1; 32]).unwrap();
    assert_eq!(multihash.code(), SHA2_256);
    assert_eq!(multihash.digest(), vec![1; 32]);
    assert!(PeerId::from_multihash(multihash).is_ok());

    // so is a short key
    let multihash = Multihash::wrap(IDENTITY, &[1; MAX_INLINE_KEY_LENGTH]).unwrap();
    assert!(PeerId::from_multihash(multihash).is_ok());

    // a long key is not, nor is another hash
    let multihash = Multihash::wrap(IDENTITY, &[1; MAX_INLINE_KEY_LENGTH + 1]).unwrap();
    assert_eq!(PeerId::from_multihash(multihash), Err(multihash));
    let multihash = Multihash::wrap(0x13, &[1; 64]).unwrap();
    assert_eq!(PeerId::from_multihash(multihash), Err(multihash));

    assert!(Multihash::wrap(SHA2_256, &[1; MAX_DIGEST_LENGTH + 1]).is_none());
}

#[test]
fn bytes_of_an_address() {
    let text = "/ip4/127.0.0.1/tcp/8888";
    let plain: multiaddr::Multiaddr = text.parse().unwrap();
    assert_eq!(address(text).to_vec(), plain.to_vec());
    assert!(Multiaddr::from_bytes(vec![0xff, 0xff, 0xff]).is_none());
    assert!(Multiaddr::empty().to_vec().is_empty());
}

#[test]
fn address_is_completed_with_its_peer() {
    let peer = PeerId::random();
    let plain = address("/ip4/127.0.0.1/tcp/8888");
    let named = address(&format!("/ip4/127.0.0.1/tcp/8888/p2p/{}", peer.to_base58()));
    assert_eq!(with_peer(plain.clone(), &peer), Some(named.clone()));

    // an address that names a peer is left as it is
    assert_eq!(with_peer(named.clone(), &peer), Some(named.clone()));
    let other = PeerId::random();
    assert_eq!(with_peer(named.clone(), &other), Some(named.clone()));

    assert_eq!(known_addresses(&peer, vec![plain.clone(), plain]), vec![named]);
}
