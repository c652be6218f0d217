//! Records that are looked up in the network.

use litep2p::peer_id::PeerId;
use litep2p::protocol::libp2p::kademlia::handle::{NonZeroUsize, Quorum};
use litep2p::protocol::libp2p::kademlia::query::get_record::{GetRecordConfig, GetRecordContext};
use litep2p::protocol::libp2p::kademlia::query::{QueryAction, QueryId};
use litep2p::protocol::libp2p::kademlia::record::{PeerRecord, Record, RecordKey};
use litep2p::protocol::libp2p::kademlia::types::{ConnectionType, KademliaPeer, Key};
use std::collections::HashSet;

fn default_config() -> GetRecordConfig {
    GetRecordConfig {
        local_peer_id: PeerId::random(),
        quorum: Quorum::All,
        known_records: 0,
        replication_factor: 20,
        parallelism_factor: 10,
        query: QueryId(0),
        target: Key::new(RecordKey::from_bytes(vec![1, 2, 3])),
    }
}

fn peer_to_kad(peer: PeerId) -> KademliaPeer {
    KademliaPeer {
        peer,
        key: Key::from_peer(peer),
        addresses: vec![],
        connection: ConnectionType::Connected,
    }
}

#[test]
fn config_check() {
    // Quorum::All with no known records.
    let config = GetRecordConfig {
        quorum: Quorum::All,
        known_records: 0,
        replication_factor: 20,
        ..default_config()
    };
    assert!(config.sufficient_records(20));
    assert!(!config.sufficient_records(19));

    // Quorum::All with 1 known records.
    let config = GetRecordConfig {
        quorum: Quorum::All,
        known_records: 1,
        replication_factor: 20,
        ..default_config()
    };
    assert!(config.sufficient_records(19));
    assert!(!config.sufficient_records(18));

    // Quorum::One with no known records.
    let config = GetRecordConfig {
        quorum: Quorum::One,
        known_records: 0,
        ..default_config()
    };
    assert!(config.sufficient_records(1));
    assert!(!config.sufficient_records(0));

    // Quorum::One with known records.
    let config = GetRecordConfig {
        quorum: Quorum::One,
        known_records: 1,
        ..default_config()
    };
    assert!(config.sufficient_records(1));
    assert!(config.sufficient_records(0));

    // Quorum::N with no known records.
    let config = GetRecordConfig {
        quorum: Quorum::N(NonZeroUsize::new(10).expect("valid; qed")),
        known_records: 0,
        ..default_config()
    };
    assert!(config.sufficient_records(10));
    assert!(!config.sufficient_records(9));

    // Quorum::N with known records.
    let config = GetRecordConfig {
        quorum: Quorum::N(NonZeroUsize::new(10).expect("valid; qed")),
        known_records: 1,
        ..default_config()
    };
    assert!(config.sufficient_records(9));
    assert!(!config.sufficient_records(8));
}

#[test]
fn completes_when_no_candidates() {
    let config = default_config();
    let mut context = GetRecordContext::new(config, Vec::new(), Vec::new());
    assert!(context.is_done());
    let event = context.next_action().unwrap();
    assert_eq!(event, QueryAction::QueryFailed { query: QueryId(0) });

    let config = GetRecordConfig {
        known_records: 1,
        ..default_config()
    };
    let mut context = GetRecordContext::new(config, Vec::new(), Vec::new());
    assert!(context.is_done());
    let event = context.next_action().unwrap();
    assert_eq!(event, QueryAction::QuerySucceeded { query: QueryId(0) });
}

#[test]
fn fulfill_parallelism() {
    let config = GetRecordConfig {
        parallelism_factor: 3,
        ..default_config()
    };

    let in_peers_set: HashSet<_> =
        [PeerId::random(), PeerId::random(), PeerId::random()].into_iter().collect();
    assert_eq!(in_peers_set.len(), 3);

    let in_peers = in_peers_set.iter().map(|peer| peer_to_kad(*peer)).collect();
    let mut context = GetRecordContext::new(config, in_peers, Vec::new());

    for num in 0..3 {
        let event = context.next_action().unwrap();
        match event {
            QueryAction::SendMessage { query, peer, .. } => {
                assert_eq!(query, QueryId(0));
                // Added as pending.
                assert_eq!(context.peers.pending_len(), num + 1);
                assert!(context.peers.is_pending(&peer));

                // Check the peer is the one provided.
                assert!(in_peers_set.contains(&peer));
            }
            _ => panic!("Unexpected event"),
        }
    }

    // Fulfilled parallelism.
    assert!(context.next_action().is_none());
}

#[test]
fn completes_when_responses() {
    let key = vec![1, 2, 3];
    let config = GetRecordConfig {
        parallelism_factor: 3,
        replication_factor: 3,
        ..default_config()
    };

    let peer_a = PeerId::random();
    let peer_b = PeerId::random();
    let peer_c = PeerId::random();

    let in_peers_set: HashSet<_> = [peer_a, peer_b, peer_c].into_iter().collect();
    assert_eq!(in_peers_set.len(), 3);

    let in_peers = [peer_a, peer_b, peer_c].iter().map(|peer| peer_to_kad(*peer)).collect();
    let mut context = GetRecordContext::new(config, in_peers, Vec::new());

    // Schedule peer queries.
    for num in 0..3 {
        let event = context.next_action().unwrap();
        match event {
            QueryAction::SendMessage { query, peer, .. } => {
                assert_eq!(query, QueryId(0));
                // Added as pending.
                assert_eq!(context.peers.pending_len(), num + 1);
                assert!(context.peers.is_pending(&peer));

                // Check the peer is the one provided.
                assert!(in_peers_set.contains(&peer));
            }
            _ => panic!("Unexpected event"),
        }
    }

    // Checks a failed query that was not initiated.
    let peer_d = PeerId::random();
    context.register_response_failure(peer_d);
    assert_eq!(context.peers.pending_len(), 3);
    assert_eq!(context.peers.queried_len(), 0);

    // Provide responses back.
    let record = Record::new(RecordKey::from_bytes(key.clone()), vec![1, 2, 3]);
    context.register_response(peer_a, Some(record), vec![]);
    assert_eq!(context.peers.pending_len(), 2);
    assert_eq!(context.peers.queried_len(), 1);
    assert_eq!(context.found_records.len(), 1);

    // Provide different response from peer b with peer d as candidate.
    let record = Record::new(RecordKey::from_bytes(key.clone()), vec![4, 5, 6]);
    context.register_response(peer_b, Some(record), vec![peer_to_kad(peer_d)]);
    assert_eq!(context.peers.pending_len(), 1);
    assert_eq!(context.peers.queried_len(), 2);
    assert_eq!(context.found_records.len(), 2);
    assert_eq!(context.peers.candidates_len(), 1);

    // Peer C fails.
    context.register_response_failure(peer_c);
    assert!(context.peers.nobody_pending());
    assert_eq!(context.peers.queried_len(), 3);
    assert_eq!(context.found_records.len(), 2);

    // Drain the last candidate.
    let event = context.next_action().unwrap();
    match event {
        QueryAction::SendMessage { query, peer, .. } => {
            assert_eq!(query, QueryId(0));
            // Added as pending.
            assert_eq!(context.peers.pending_len(), 1);
            assert_eq!(peer, peer_d);
        }
        _ => panic!("Unexpected event"),
    }

    // Peer D responds.
    let record = Record::new(RecordKey::from_bytes(key.clone()), vec![4, 5, 6]);
    context.register_response(peer_d, Some(record), vec![]);

    // Produces the result.
    let event = context.next_action().unwrap();
    assert_eq!(event, QueryAction::QuerySucceeded { query: QueryId(0) });

    // Check results.
    let found_records = context.found_records();
    assert_eq!(
        found_records,
        vec![
            PeerRecord {
                peer: peer_a,
                record: Record::new(RecordKey::from_bytes(key.clone()), vec![1, 2, 3]),
            },
            PeerRecord {
                peer: peer_b,
                record: Record::new(RecordKey::from_bytes(key.clone()), vec![4, 5, 6]),
            },
            PeerRecord {
                peer: peer_d,
                record: Record::new(RecordKey::from_bytes(key.clone()), vec![4, 5, 6]),
            },
        ]
    );
}
