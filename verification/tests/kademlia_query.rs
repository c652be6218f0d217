//! The queries of a node.

use litep2p::peer_id::PeerId;
use litep2p::protocol::libp2p::kademlia::handle::Quorum;
use litep2p::protocol::libp2p::kademlia::message::KademliaMessage;
use litep2p::protocol::libp2p::kademlia::query::engine::QueryEngine;
use litep2p::protocol::libp2p::kademlia::query::find_node::{FindNodeConfig, FindNodeContext};
use litep2p::protocol::libp2p::kademlia::query::{QueryAction, QueryId};
use litep2p::protocol::libp2p::kademlia::record::{Record, RecordKey};
use litep2p::protocol::libp2p::kademlia::types::{ConnectionType, KademliaPeer, Key};

// make fixed peer id
fn make_peer_id(first: u8, second: u8) -> PeerId {
    let mut peer_id = vec![0u8; 32];
    peer_id[0] = first;
    peer_id[1] = second;

    PeerId::from_bytes(
        &multihash::Multihash::<64>::wrap(0x00, &peer_id)
            .expect("The digest size is never too large")
            .to_bytes(),
    )
    .unwrap()
}

#[test]
fn mod_query_fails() {
    let mut engine = QueryEngine::new(PeerId::random(), 20usize, 3usize);
    let target_peer = PeerId::random();
    let _target_key = Key::from_peer(target_peer);

    let query = engine.start_find_node(
        QueryId(1337),
        target_peer,
        vec![
            KademliaPeer::new(PeerId::random(), vec![], ConnectionType::NotConnected),
            KademliaPeer::new(PeerId::random(), vec![], ConnectionType::NotConnected),
            KademliaPeer::new(PeerId::random(), vec![], ConnectionType::NotConnected),
            KademliaPeer::new(PeerId::random(), vec![], ConnectionType::NotConnected),
        ],
    );

    for _ in 0..4 {
        if let Some(QueryAction::SendMessage { query, peer, .. }) = engine.next_action() {
            engine.register_response_failure(query, peer);
        }
    }

    if let Some(QueryAction::QueryFailed { query: failed }) = engine.next_action() {
        assert_eq!(failed, query);
    }

    assert!(engine.next_action().is_none());
}

#[test]
fn mod_lookup_paused() {
    let mut engine = QueryEngine::new(PeerId::random(), 20usize, 3usize);
    let target_peer = PeerId::random();
    let _target_key = Key::from_peer(target_peer);

    let _ = engine.start_find_node(
        QueryId(1338),
        target_peer,
        vec![
            KademliaPeer::new(PeerId::random(), vec![], ConnectionType::NotConnected),
            KademliaPeer::new(PeerId::random(), vec![], ConnectionType::NotConnected),
            KademliaPeer::new(PeerId::random(), vec![], ConnectionType::NotConnected),
            KademliaPeer::new(PeerId::random(), vec![], ConnectionType::NotConnected),
        ],
    );

    for _ in 0..3 {
        let _ = engine.next_action();
    }

    assert!(engine.next_action().is_none());
}

#[test]
fn mod_find_node_query_succeeds() {
    let mut engine = QueryEngine::new(PeerId::random(), 20usize, 3usize);
    let target_peer = make_peer_id(0, 0);
    let target_key = Key::from_peer(target_peer);

    let distances = {
        let mut distances = std::collections::BTreeMap::new();

        for i in 1..64 {
            let peer = make_peer_id(i, 0);
            let key = Key::from_peer(peer);

            distances.insert(target_key.distance(&key), peer);
        }

        distances
    };
    let mut iter = distances.iter();

    // start find node with one known peer
    let _query = engine.start_find_node(
        QueryId(1339),
        target_peer,
        vec![KademliaPeer::new(
            *iter.next().unwrap().1,
            vec![],
            ConnectionType::NotConnected,
        )],
    );

    let action = engine.next_action();
    assert!(engine.next_action().is_none());

    // the one known peer responds with 3 other peers it knows
    match action {
        Some(QueryAction::SendMessage { query, peer, .. }) => {
            engine.register_response(
                query,
                peer,
                KademliaMessage::FindNode {
                    target: PeerId::random().to_bytes(),
                    peers: vec![
                        KademliaPeer::new(
                            *iter.next().unwrap().1,
                            vec![],
                            ConnectionType::NotConnected,
                        ),
                        KademliaPeer::new(
                            *iter.next().unwrap().1,
                            vec![],
                            ConnectionType::NotConnected,
                        ),
                        KademliaPeer::new(
                            *iter.next().unwrap().1,
                            vec![],
                            ConnectionType::NotConnected,
                        ),
                    ],
                },
            );
        }
        _ => panic!("invalid event received"),
    }

    // send empty response for the last three nodes
    for _ in 0..3 {
        match engine.next_action() {
            Some(QueryAction::SendMessage { query, peer, .. }) => {
                println!("next send message to {peer:?}");
                engine.register_response(
                    query,
                    peer,
                    KademliaMessage::FindNode {
                        target: PeerId::random().to_bytes(),
                        peers: vec![],
                    },
                );
            }
            _ => panic!("invalid event received"),
        }
    }

    match engine.next_action() {
        Some(QueryAction::FindNodeQuerySucceeded { peers, .. }) => {
            assert_eq!(peers.len(), 4);
        }
        _ => panic!("invalid event received"),
    }

    assert!(engine.next_action().is_none());
}

#[test]
fn mod_put_record_succeeds() {
    let mut engine = QueryEngine::new(PeerId::random(), 20usize, 3usize);
    let record_key = RecordKey::from_bytes(vec![1, 2, 3, 4]);
    let target_key = Key::new(record_key.clone());
    let original_record = Record::new(record_key, vec![1, 3, 3, 7, 1, 3, 3, 8]);

    let distances = {
        let mut distances = std::collections::BTreeMap::new();

        for i in 1..64 {
            let peer = make_peer_id(i, 0);
            let key = Key::from_peer(peer);

            distances.insert(target_key.distance(&key), peer);
        }

        distances
    };
    let mut iter = distances.iter();

    // start find node with one known peer
    let _query = engine.start_put_record(
        QueryId(1340),
        original_record.clone(),
        vec![KademliaPeer::new(
            *iter.next().unwrap().1,
            vec![],
            ConnectionType::NotConnected,
        )],
    );

    let action = engine.next_action();
    assert!(engine.next_action().is_none());

    // the one known peer responds with 3 other peers it knows
    match action {
        Some(QueryAction::SendMessage { query, peer, .. }) => {
            engine.register_response(
                query,
                peer,
                KademliaMessage::FindNode {
                    target: PeerId::random().to_bytes(),
                    peers: vec![
                        KademliaPeer::new(
                            *iter.next().unwrap().1,
                            vec![],
                            ConnectionType::NotConnected,
                        ),
                        KademliaPeer::new(
                            *iter.next().unwrap().1,
                            vec![],
                            ConnectionType::NotConnected,
                        ),
                        KademliaPeer::new(
                            *iter.next().unwrap().1,
                            vec![],
                            ConnectionType::NotConnected,
                        ),
                    ],
                },
            );
        }
        _ => panic!("invalid event received"),
    }

    // send empty response for the last three nodes
    for _ in 0..3 {
        match engine.next_action() {
            Some(QueryAction::SendMessage { query, peer, .. }) => {
                println!("next send message to {peer:?}");
                engine.register_response(
                    query,
                    peer,
                    KademliaMessage::FindNode {
                        target: PeerId::random().to_bytes(),
                        peers: vec![],
                    },
                );
            }
            _ => panic!("invalid event received"),
        }
    }

    match engine.next_action() {
        Some(QueryAction::PutRecordToFoundNodes { peers, record }) => {
            assert_eq!(peers.len(), 4);
            assert_eq!(record.key, original_record.key);
            assert_eq!(record.value, original_record.value);
        }
        _ => panic!("invalid event received"),
    }

    assert!(engine.next_action().is_none());
}

#[test]
fn query_query_fails() {
    let mut engine = QueryEngine::new(PeerId::random(), 20usize, 3usize);
    let target_peer = PeerId::random();
    let _target_key = Key::from_peer(target_peer);

    let query = engine
        .start_find_node(
            QueryId(1),
            target_peer,
            vec![
                KademliaPeer::new(PeerId::random(), vec![], ConnectionType::NotConnected),
                KademliaPeer::new(PeerId::random(), vec![], ConnectionType::NotConnected),
                KademliaPeer::new(PeerId::random(), vec![], ConnectionType::NotConnected),
                KademliaPeer::new(PeerId::random(), vec![], ConnectionType::NotConnected),
            ],
        );

    for _ in 0..4 {
        if let Some(QueryAction::SendMessage { query, peer, .. }) = engine.next_action() {
            engine.register_response_failure(query, peer);
        }
    }

    if let Some(QueryAction::QueryFailed { query: failed }) = engine.next_action() {
        assert_eq!(failed, query);
    }

    assert!(engine.next_action().is_none());
}

#[test]
fn query_lookup_paused() {
    let mut engine = QueryEngine::new(PeerId::random(), 20usize, 3usize);
    let target_peer = PeerId::random();
    let _target_key = Key::from_peer(target_peer);

    let _ = engine.start_find_node(
        QueryId(2),
        target_peer,
        vec![
            KademliaPeer::new(PeerId::random(), vec![], ConnectionType::NotConnected),
            KademliaPeer::new(PeerId::random(), vec![], ConnectionType::NotConnected),
            KademliaPeer::new(PeerId::random(), vec![], ConnectionType::NotConnected),
            KademliaPeer::new(PeerId::random(), vec![], ConnectionType::NotConnected),
        ],
    );

    for _ in 0..3 {
        let _ = engine.next_action();
    }

    assert!(engine.next_action().is_none());
}

#[test]
fn query_find_node_query_succeeds() {
    let mut engine = QueryEngine::new(PeerId::random(), 20usize, 3usize);
    let target_peer = make_peer_id(0, 0);
    let target_key = Key::from_peer(target_peer);

    let distances = {
        let mut distances = std::collections::BTreeMap::new();

        for i in 1..64 {
            let peer = make_peer_id(i, 0);
            let key = Key::from_peer(peer);

            distances.insert(target_key.distance(&key), peer);
        }

        distances
    };
    let mut iter = distances.iter();

    // start find node with one known peer
    let _query = engine.start_find_node(
        QueryId(3),
        target_peer,
        vec![KademliaPeer::new(
            *iter.next().unwrap().1,
            vec![],
            ConnectionType::NotConnected,
        )],
    );

    let action = engine.next_action();
    assert!(engine.next_action().is_none());

    // the one known peer responds with 3 other peers it knows
    match action {
        Some(QueryAction::SendMessage { query, peer, .. }) => {
            engine.register_response(
                query,
                peer,
                KademliaMessage::FindNode {
                    target: vec![],
                    peers: vec![
                        KademliaPeer::new(
                            *iter.next().unwrap().1,
                            vec![],
                            ConnectionType::NotConnected,
                        ),
                        KademliaPeer::new(
                            *iter.next().unwrap().1,
                            vec![],
                            ConnectionType::NotConnected,
                        ),
                        KademliaPeer::new(
                            *iter.next().unwrap().1,
                            vec![],
                            ConnectionType::NotConnected,
                        ),
                    ],
                },
            );
        }
        _ => panic!("invalid event received"),
    }

    // send empty response for the last three nodes
    for _ in 0..3 {
        match engine.next_action() {
            Some(QueryAction::SendMessage { query, peer, .. }) => {
                println!("next send message to {peer:?}");
                engine.register_response(
                    query,
                    peer,
                    KademliaMessage::FindNode { target: vec![], peers: vec![] },
                );
            }
            _ => panic!("invalid event received"),
        }
    }

    match engine.next_action() {
        Some(QueryAction::FindNodeQuerySucceeded { peers, .. }) => {
            assert_eq!(peers.len(), 4);
        }
        _ => panic!("invalid event received"),
    }

    assert!(engine.next_action().is_none());
}

#[test]
fn query_put_record_succeeds() {
    let mut engine = QueryEngine::new(PeerId::random(), 20usize, 3usize);
    let record_key = RecordKey::from_bytes(vec![1, 2, 3, 4]);
    let target_key = Key::new(record_key.clone());
    let original_record = Record::new(record_key, vec![1, 3, 3, 7, 1, 3, 3, 8]);

    let distances = {
        let mut distances = std::collections::BTreeMap::new();

        for i in 1..64 {
            let peer = make_peer_id(i, 0);
            let key = Key::from_peer(peer);

            distances.insert(target_key.distance(&key), peer);
        }

        distances
    };
    let mut iter = distances.iter();

    // start find node with one known peer
    let _query = engine.start_put_record(
        QueryId(4),
        original_record.clone(),
        vec![KademliaPeer::new(
            *iter.next().unwrap().1,
            vec![],
            ConnectionType::NotConnected,
        )],
    );

    let action = engine.next_action();
    assert!(engine.next_action().is_none());

    // the one known peer responds with 3 other peers it knows
    match action {
        Some(QueryAction::SendMessage { query, peer, .. }) => {
            engine.register_response(
                query,
                peer,
                KademliaMessage::FindNode {
                    target: vec![],
                    peers: vec![
                        KademliaPeer::new(
                            *iter.next().unwrap().1,
                            vec![],
                            ConnectionType::NotConnected,
                        ),
                        KademliaPeer::new(
                            *iter.next().unwrap().1,
                            vec![],
                            ConnectionType::NotConnected,
                        ),
                        KademliaPeer::new(
                            *iter.next().unwrap().1,
                            vec![],
                            ConnectionType::NotConnected,
                        ),
                    ],
                },
            );
        }
        _ => panic!("invalid event received"),
    }

    // send empty response for the last three nodes
    for _ in 0..3 {
        match engine.next_action() {
            Some(QueryAction::SendMessage { query, peer, .. }) => {
                println!("next send message to {peer:?}");
                engine.register_response(
                    query,
                    peer,
                    KademliaMessage::FindNode { target: vec![], peers: vec![] },
                );
            }
            _ => panic!("invalid event received"),
        }
    }

    match engine.next_action() {
        Some(QueryAction::PutRecordToFoundNodes { peers, record }) => {
            assert_eq!(peers.len(), 4);
            assert_eq!(record.key, original_record.key);
            assert_eq!(record.value, original_record.value);
        }
        _ => panic!("invalid event received"),
    }

    assert!(engine.next_action().is_none());
}

#[test]
fn get_record_query_ends_with_the_record() {
    let mut engine = QueryEngine::new(PeerId::random(), 20, 3);
    let key = RecordKey::from_bytes(vec![1, 2, 3]);
    let record = Record::new(key.clone(), vec![4, 5, 6]);
    let peer = PeerId::random();
    let query = engine.start_get_record(
        QueryId(7),
        key.clone(),
        vec![KademliaPeer::new(peer, vec![], ConnectionType::NotConnected)],
        Quorum::One,
        0,
    );
    assert!(engine.is_active(&query));
    assert!(matches!(engine.next_action(), Some(QueryAction::SendMessage { .. })));

    let message = KademliaMessage::GetRecord {
        key: Some(key),
        record: Some(record.clone()),
        peers: vec![],
    };
    assert!(engine.expects(&query, &message));
    engine.register_response(query, peer, message);
    match engine.next_action() {
        Some(QueryAction::GetRecordQueryDone { query_id, records }) => {
            assert_eq!(query_id, query);
            assert_eq!(records.len(), 1);
            assert_eq!(records[0].record, record);
            assert_eq!(records[0].peer, peer);
        }
        _ => panic!("invalid event received"),
    }
    assert_eq!(engine.len(), 0);
}

#[test]
fn answer_of_a_peer_that_was_not_asked_changes_nothing() {
    let mut engine = QueryEngine::new(PeerId::random(), 20, 1);
    let peer = PeerId::random();
    let query = engine.start_find_node(
        QueryId(0),
        PeerId::random(),
        vec![KademliaPeer::new(peer, vec![], ConnectionType::NotConnected)],
    );
    assert!(matches!(engine.next_action(), Some(QueryAction::SendMessage { .. })));
    engine.register_response(
        query,
        PeerId::random(),
        KademliaMessage::FindNode {
            target: vec![],
            peers: vec![KademliaPeer::new(PeerId::random(), vec![], ConnectionType::NotConnected)],
        },
    );
    assert!(engine.next_action().is_none());
    assert!(engine.next_peer_action(&query, &peer).is_some());
    assert!(engine.next_peer_action(&query, &PeerId::random()).is_none());
}

#[test]
fn record_is_put_to_the_given_peers() {
    let mut engine = QueryEngine::new(PeerId::random(), 20, 3);
    let record = Record::new(RecordKey::from_bytes(vec![1]), vec![2]);
    let peer = KademliaPeer::new(PeerId::random(), vec![], ConnectionType::Connected);
    engine.start_put_record_to_peers(QueryId(0), record.clone(), vec![peer.clone()]);
    assert_eq!(
        engine.next_action(),
        Some(QueryAction::PutRecordToFoundNodes { record, peers: vec![peer] })
    );
    assert!(engine.next_action().is_none());
}

#[test]
fn closest_responders_are_kept() {
    let target = Key::from_peer(PeerId::random());
    let mut peers: Vec<KademliaPeer> = (0..6)
        .map(|_| KademliaPeer::new(PeerId::random(), vec![], ConnectionType::NotConnected))
        .collect();
    peers.sort_by(|a, b| target.distance(&a.key).cmp(&target.distance(&b.key)));
    let ids: Vec<PeerId> = peers.iter().map(|peer| peer.peer).collect();

    // the farthest answers first, the closest in the middle
    for order in [[5, 4, 3, 2, 1, 0], [5, 3, 0, 4, 2, 1], [0, 1, 2, 3, 4, 5]] {
        let mut context = FindNodeContext::new(
            FindNodeConfig {
                local_peer_id: PeerId::random(),
                replication_factor: 2,
                parallelism_factor: 6,
                query: QueryId(0),
                target: Key::from_peer(target.preimage),
            },
            peers.clone(),
        );
        for id in &ids {
            match context.next_action() {
                Some(QueryAction::SendMessage { peer, .. }) => assert_eq!(peer, *id),
                action => panic!("invalid action: {action:?}"),
            }
        }
        for i in order {
            context.register_response(ids[i], vec![]);
        }
        let kept: Vec<PeerId> =
            context.responses.into_values().into_iter().map(|peer| peer.peer).collect();
        assert_eq!(kept, ids[..2]);
    }
}
