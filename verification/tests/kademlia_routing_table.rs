//! The routing table.

use litep2p::address::Multiaddr;
use litep2p::peer_id::PeerId;
use litep2p::protocol::libp2p::kademlia::bucket::{KBucketEntry, K_VALUE};
use litep2p::protocol::libp2p::kademlia::routing_table::{BucketIndex, RoutingTable, NUM_BUCKETS};
use litep2p::protocol::libp2p::kademlia::types::{ConnectionType, Distance, KademliaPeer, Key};
use litep2p::protocol::libp2p::kademlia::u256::U256;

fn address(text: &str) -> Multiaddr {
    let address: multiaddr::Multiaddr = text.parse().unwrap();
    Multiaddr::from_bytes(address.to_vec()).unwrap()
}

#[test]
fn closest_peers() {
    let own_peer_id = PeerId::random();
    let own_key = Key::from_peer(own_peer_id);
    let mut table = RoutingTable::new(own_key.clone());

    for _ in 0..60 {
        let peer = PeerId::random();
        let key = Key::from_peer(peer);
        let entry = table.entry(key.clone());
        entry.insert(KademliaPeer::new(peer, vec![], ConnectionType::Connected));
    }

    let target = Key::from_peer(PeerId::random());
    let closest = table.closest(&target, 60usize);
    let mut prev = None;

    for peer in &closest {
        if let Some(value) = prev {
            assert!(value < target.distance(&peer.key));
        }

        prev = Some(target.distance(&peer.key));
    }
}

// generate random peer that falls in to specified k-bucket.
//
// NOTE: the preimage of the generated `Key` doesn't match the `Key` itself
fn random_peer(own_key: Key<PeerId>, bucket_index: usize) -> (Key<PeerId>, PeerId) {
    let peer = PeerId::random();
    let distance = BucketIndex::from_number(bucket_index).unwrap().rand_distance();
    let key_bytes = own_key.for_distance(distance);

    (Key::from_bytes(key_bytes, peer), peer)
}

#[test]
fn add_peer_to_empty_table() {
    let own_peer_id = PeerId::random();
    let own_key = Key::from_peer(own_peer_id);
    let mut table = RoutingTable::new(own_key.clone());

    // verify that local peer id resolves to special entry
    assert_eq!(table.entry(own_key), KBucketEntry::LocalNode);

    let peer = PeerId::random();
    let key = Key::from_peer(peer);
    let test = table.entry(key.clone());
    let addresses = vec![];

    assert!(matches!(test, KBucketEntry::Vacant(_)));
    test.insert(KademliaPeer::new(
        peer,
        addresses.clone(),
        ConnectionType::Connected,
    ));

    assert_eq!(
        table.entry(key.clone()),
        KBucketEntry::Occupied(&mut KademliaPeer::new(
            peer,
            addresses.clone(),
            ConnectionType::Connected,
        ))
    );

    match table.entry(key.clone()) {
        KBucketEntry::Occupied(entry) => {
            entry.connection = ConnectionType::NotConnected;
        }
        _ => panic!("invalid state for `KBucketEntry`"),
    }

    assert_eq!(
        table.entry(key.clone()),
        KBucketEntry::Occupied(&mut KademliaPeer::new(
            peer,
            addresses,
            ConnectionType::NotConnected,
        ))
    );
}

#[test]
fn full_k_bucket() {
    let own_peer_id = PeerId::random();
    let own_key = Key::from_peer(own_peer_id);
    let mut table = RoutingTable::new(own_key.clone());

    // add 20 nodes to the same k-bucket
    for _ in 0..20 {
        let (key, peer) = random_peer(own_key.clone(), 254);
        let entry = table.entry(key.clone());

        assert!(matches!(entry, KBucketEntry::Vacant(_)));
        entry.insert(KademliaPeer::new(peer, vec![], ConnectionType::Connected));
    }

    // try to add another peer and verify the peer is rejected
    // because the k-bucket is full of connected nodes
    let peer = PeerId::random();
    let distance = BucketIndex::from_number(254).unwrap().rand_distance();
    let key_bytes = own_key.for_distance(distance);
    let key = Key::from_bytes(key_bytes, peer);

    let entry = table.entry(key.clone());
    assert!(matches!(entry, KBucketEntry::NoSlot));
}

#[test]
fn peer_disconnects_and_is_evicted() {
    let own_peer_id = PeerId::random();
    let own_key = Key::from_peer(own_peer_id);
    let mut table = RoutingTable::new(own_key.clone());

    // add 20 nodes to the same k-bucket
    let peers = (0..20)
        .map(|_| {
            let (key, peer) = random_peer(own_key.clone(), 253);
            let entry = table.entry(key.clone());

            assert!(matches!(entry, KBucketEntry::Vacant(_)));
            entry.insert(KademliaPeer::new(peer, vec![], ConnectionType::Connected));

            (peer, key)
        })
        .collect::<Vec<_>>();

    // try to add another peer and verify the peer is rejected
    // because the k-bucket is full of connected nodes
    let peer = PeerId::random();
    let distance = BucketIndex::from_number(253).unwrap().rand_distance();
    let key_bytes = own_key.for_distance(distance);
    let key = Key::from_bytes(key_bytes, peer);

    let entry = table.entry(key.clone());
    assert!(matches!(entry, KBucketEntry::NoSlot));

    // disconnect random peer
    match table.entry(peers[3].1.clone()) {
        KBucketEntry::Occupied(entry) => {
            entry.connection = ConnectionType::NotConnected;
        }
        _ => panic!("invalid state for node"),
    }

    // try to add the previously rejected peer again and verify it's added
    let entry = table.entry(key.clone());
    assert!(matches!(entry, KBucketEntry::Vacant(_)));
    entry.insert(KademliaPeer::new(
        peer,
        vec![address("/ip6/::1/tcp/8888")],
        ConnectionType::CanConnect,
    ));

    // verify the node is still there
    let entry = table.entry(key.clone());
    let addresses = vec![address("/ip6/::1/tcp/8888")];
    assert_eq!(
        entry,
        KBucketEntry::Occupied(&mut KademliaPeer::new(
            peer,
            addresses,
            ConnectionType::CanConnect,
        ))
    );
}

#[test]
fn disconnected_peers_are_not_evicted_if_there_is_capacity() {
    let own_peer_id = PeerId::random();
    let own_key = Key::from_peer(own_peer_id);
    let mut table = RoutingTable::new(own_key.clone());

    // add 19 disconnected nodes to the same k-bucket
    let _peers = (0..19)
        .map(|_| {
            let (key, peer) = random_peer(own_key.clone(), 252);
            let entry = table.entry(key.clone());

            assert!(matches!(entry, KBucketEntry::Vacant(_)));
            entry.insert(KademliaPeer::new(
                peer,
                vec![],
                ConnectionType::NotConnected,
            ));

            (peer, key)
        })
        .collect::<Vec<_>>();

    // try to add another peer and verify it's accepted as there is
    // still room in the k-bucket for the node
    let peer = PeerId::random();
    let distance = BucketIndex::from_number(252).unwrap().rand_distance();
    let key_bytes = own_key.for_distance(distance);
    let key = Key::from_bytes(key_bytes, peer);

    let entry = table.entry(key.clone());
    assert!(matches!(entry, KBucketEntry::Vacant(_)));
    entry.insert(KademliaPeer::new(
        peer,
        vec![address("/ip6/::1/tcp/8888")],
        ConnectionType::CanConnect,
    ));
}

#[test]
fn bucket_of_a_distance() {
    assert!(BucketIndex::new(&Distance(U256 { hi: 0, lo: 0 })).is_none());
    assert_eq!(BucketIndex::new(&Distance(U256 { hi: 0, lo: 1 })).unwrap().get(), 0);
    assert_eq!(BucketIndex::new(&Distance(U256 { hi: 0, lo: 255 })).unwrap().get(), 7);
    assert_eq!(BucketIndex::new(&Distance(U256 { hi: 0, lo: 256 })).unwrap().get(), 8);
    assert_eq!(BucketIndex::new(&Distance(U256 { hi: 1, lo: 0 })).unwrap().get(), 128);
    assert_eq!(BucketIndex::new(&Distance(U256 { hi: 1 << 127, lo: 0 })).unwrap().get(), 255);
}

#[test]
fn range_of_a_bucket() {
    let range = BucketIndex::from_number(0).unwrap().range();
    assert_eq!(range, (Distance(U256 { hi: 0, lo: 1 }), Distance(U256 { hi: 0, lo: 1 })));
    let range = BucketIndex::from_number(4).unwrap().range();
    assert_eq!(range, (Distance(U256 { hi: 0, lo: 16 }), Distance(U256 { hi: 0, lo: 31 })));
    let range = BucketIndex::from_number(255).unwrap().range();
    assert_eq!(range.0, Distance(U256 { hi: 1 << 127, lo: 0 }));
    assert_eq!(range.1, Distance(U256 { hi: u128::MAX, lo: u128::MAX }));
    assert!(BucketIndex::from_number(NUM_BUCKETS).is_none());
}

#[test]
fn random_distances_fall_into_their_bucket() {
    for i in 0..NUM_BUCKETS {
        let index = BucketIndex::from_number(i).unwrap();
        let distance = index.rand_distance();
        assert_eq!(BucketIndex::new(&distance).unwrap().get(), i);
        let (low, high) = index.range();
        assert!(low <= distance && distance <= high);
    }
}

#[test]
fn random_distances_differ() {
    let index = BucketIndex::from_number(254).unwrap();
    assert_ne!(index.rand_distance(), index.rand_distance());
}

#[test]
fn distance_of_given_bytes() {
    let mut bytes = [0xffu8; 32];
    bytes[31] = 0x34;
    bytes[30] = 0x12;
    let index = BucketIndex::from_number(17).unwrap();
    assert_eq!(index.distance_with(&bytes, 2), Distance(U256 { hi: 0, lo: 0x02_12_34 }));
}

#[test]
fn closest_stops_at_the_limit() {
    let mut table = RoutingTable::new(Key::from_peer(PeerId::random()));
    for _ in 0..10 {
        let peer = PeerId::random();
        table.add_known_peer(peer, vec![address("/ip6/::1/tcp/8888")], ConnectionType::Connected);
    }
    let target = Key::from_peer(PeerId::random());
    let all = table.closest(&target, 60);
    assert_eq!(all.len(), 10);
    let closest = table.closest(&target, 4);
    assert_eq!(closest.len(), 4);
    for (left, right) in closest.iter().zip(all.iter()) {
        assert_eq!(left, right);
    }
}

#[test]
fn known_peer_is_added_with_its_addresses() {
    let local = PeerId::random();
    let mut table = RoutingTable::new(Key::from_peer(local));
    let addresses = vec![address("/ip6/::1/tcp/8888")];

    table.add_known_peer(local, addresses.clone(), ConnectionType::Connected);
    assert!(table.closest(&Key::from_peer(local), K_VALUE).is_empty());

    let peer = PeerId::random();
    table.add_known_peer(peer, addresses.clone(), ConnectionType::CanConnect);
    let expected = KademliaPeer::new(peer, addresses, ConnectionType::CanConnect);
    assert_eq!(table.look_up(peer), Some(expected));

    table.set_connection(peer, ConnectionType::NotConnected);
    match table.entry(Key::from_peer(peer)) {
        KBucketEntry::Occupied(entry) => {
            assert_eq!(entry.connection, ConnectionType::NotConnected);
        }
        _ => panic!("the peer stays in the table"),
    }
}
