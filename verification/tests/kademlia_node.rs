//! A Kademlia node, its messages and its settings.

use litep2p::address::Multiaddr;
use litep2p::error::Error;
use litep2p::peer_id::PeerId;
use litep2p::protocol::libp2p::kademlia::config::{Config, ConfigBuilder, DEFAULT_TTL};
use litep2p::protocol::libp2p::kademlia::handle::{
    group_records, IncomingRecordValidationMode, KademliaCommand, KademliaEvent, KademliaHandle,
    NonZeroUsize, Quorum, RecordsType, RoutingTableUpdateMode,
};
use litep2p::protocol::libp2p::kademlia::message::{KademliaMessage, CLUSTER_LEVEL};
use litep2p::protocol::libp2p::kademlia::node::{
    peers_to_reach, Kademlia, KademliaAction, KademliaInput, QueryResult, Reached,
};
use litep2p::protocol::libp2p::kademlia::query::get_providers::{
    GetProvidersConfig, GetProvidersContext,
};
use litep2p::protocol::libp2p::kademlia::query::put_record::PutRecordToFoundNodesContext;
use litep2p::protocol::libp2p::kademlia::query::{QueryAction, QueryId};
use litep2p::protocol::libp2p::kademlia::record::{PeerRecord, Record, RecordKey};
use litep2p::protocol::libp2p::kademlia::schema;
use litep2p::protocol::libp2p::kademlia::types::{
    hash_key, ConnectionType, Distance, KademliaPeer, Key,
};
use litep2p::protocol::libp2p::kademlia::u256::U256;
use litep2p::protocol::{Direction, TransportEvent};
use litep2p::types::{ProtocolName, SubstreamId};

type Actions = Vec<KademliaAction<usize>>;

fn address(text: &str) -> Multiaddr {
    let address: multiaddr::Multiaddr = text.parse().unwrap();
    Multiaddr::from_bytes(address.to_vec()).unwrap()
}

fn local() -> Multiaddr {
    address("/ip4/127.0.0.1/tcp/8888")
}

fn node(known: Vec<PeerId>, mode: RoutingTableUpdateMode) -> Kademlia {
    let known = known.into_iter().map(|peer| (peer, vec![local()])).collect();
    let config = ConfigBuilder::new()
        .with_known_peers(known)
        .with_routing_table_update_mode(mode)
        .build();
    let (node, actions): (Kademlia, Actions) = Kademlia::new(PeerId::random(), config);
    assert!(actions.iter().all(|a| matches!(a, KademliaAction::AddKnownAddress { .. })));
    node
}

fn peer(peer: PeerId) -> KademliaPeer {
    KademliaPeer::new(peer, vec![local()], ConnectionType::CanConnect)
}

#[test]
fn key_is_the_hash_of_its_preimage() {
    let id = PeerId::random();
    let digest = <sha2::Sha256 as sha2::Digest>::digest(id.to_bytes());
    let mut bytes = [0u8; 32];
    bytes.copy_from_slice(digest.as_slice());
    assert_eq!(Key::from_peer(id).bytes, U256::from_be_bytes(&bytes));
    assert_eq!(hash_key(&id.to_bytes()), U256::from_be_bytes(&bytes));
    assert_eq!(Key::from_peer(id).into_preimage(), id);
}

#[test]
fn distance_is_exclusive_or() {
    let a = Key::from_bytes(U256 { hi: 0b1100, lo: 1 }, PeerId::random());
    let b = Key::from_bytes(U256 { hi: 0b1010, lo: 3 }, PeerId::random());
    let d = Distance(U256 { hi: 0b0110, lo: 2 });
    assert_eq!(a.distance(&b), d);
    assert_eq!(b.distance(&a), d);
    assert_eq!(a.for_distance(d), b.bytes);
    assert_eq!(d.ilog2(), Some(130));
    assert!(Distance(U256 { hi: 0, lo: u128::MAX }).less_than(&d));
}

#[test]
fn connection_types_have_numbers() {
    for (number, connection) in [
        (0, ConnectionType::NotConnected),
        (1, ConnectionType::Connected),
        (2, ConnectionType::CanConnect),
        (3, ConnectionType::CannotConnect),
    ] {
        assert_eq!(ConnectionType::try_from_number(number), Ok(connection));
        assert_eq!(connection.to_number(), number);
    }
    assert_eq!(ConnectionType::try_from_number(4), Err(()));
}

#[test]
fn peer_is_read_from_the_wire_as_it_was_written() {
    let peer = peer(PeerId::random());
    let wire = peer.to_schema();
    assert_eq!(wire.id, peer.peer.to_bytes());
    assert_eq!(wire.connection, 2);
    assert_eq!(KademliaPeer::try_from_schema(&wire), Ok(peer));

    let broken = schema::Peer { id: vec![1, 2], addrs: vec![], connection: 0 };
    assert_eq!(KademliaPeer::try_from_schema(&broken), Err(()));
}

#[test]
fn messages_are_read_as_they_were_written() {
    let key = RecordKey::from_bytes(vec![1, 2, 3]);
    let record = Record::new(key.clone(), vec![4, 5]);
    let peers = vec![peer(PeerId::random())];

    let message = KademliaMessage::find_node(vec![7]);
    assert_eq!(message.message_type, schema::FIND_NODE);
    assert_eq!(message.cluster_level_raw, CLUSTER_LEVEL);
    assert_eq!(
        KademliaMessage::from_message(message),
        Some(KademliaMessage::FindNode { target: vec![7], peers: vec![] })
    );

    let message = KademliaMessage::find_node_response(vec![7], &peers);
    let parsed = KademliaMessage::from_message(message).unwrap();
    assert!(parsed.is_response());
    assert_eq!(
        parsed,
        KademliaMessage::FindNode { target: vec![7], peers: vec![peers[0].clone()] }
    );

    let message = KademliaMessage::put_value(&record);
    assert_eq!(
        KademliaMessage::from_message(message),
        Some(KademliaMessage::PutValue { record: record.clone() })
    );

    let message = KademliaMessage::get_value_response(&key, &peers, Some(&record));
    assert_eq!(
        KademliaMessage::from_message(message),
        Some(KademliaMessage::GetRecord {
            key: Some(key.clone()),
            record: Some(record),
            peers: vec![peers[0].clone()],
        })
    );

    let message = KademliaMessage::get_record(&key);
    assert_eq!(message.message_type, schema::GET_VALUE);
    let message = KademliaMessage::get_providers_request(&key);
    assert_eq!(message.message_type, schema::GET_PROVIDERS);
    assert_eq!(KademliaMessage::from_message(message), None);
}

#[test]
fn record_is_stored_and_handed_out() {
    let mut node = node(vec![], RoutingTableUpdateMode::Automatic);
    let (sender, asker) = (PeerId::random(), PeerId::random());
    let key = RecordKey::from_bytes(vec![1, 2, 3]);
    let record = Record::new(key.clone(), vec![4, 5]);

    let put = KademliaMessage::put_value(&record);
    let actions: Actions = node.on_message_received(sender, None, Some(put), 5usize).unwrap();
    assert_eq!(actions, vec![]);

    let get = KademliaMessage::get_record(&key);
    let actions: Actions = node.on_message_received(asker, None, Some(get), 6usize).unwrap();
    match &actions[..] {
        [KademliaAction::SendMessage { peer, message, substream }] => {
            assert_eq!(*peer, asker);
            assert_eq!(*substream, 6);
            assert_eq!(
                message.record,
                Some(schema::Record { key: vec![1, 2, 3], value: vec![4, 5] })
            );
        }
        _ => panic!("the record is handed out"),
    }

    // the local user gets it from the store
    let actions: Actions = node.on_command(KademliaCommand::GetRecord {
        key,
        quorum: Quorum::One,
        query_id: QueryId(0),
    });
    assert_eq!(
        actions,
        vec![KademliaAction::Report(KademliaEvent::GetRecordSuccess {
            query_id: QueryId(0),
            records: RecordsType::LocalStore(record),
        })]
    );
}

#[test]
fn message_that_cannot_be_read_is_an_error() {
    let mut node = node(vec![], RoutingTableUpdateMode::Automatic);
    let result: Result<Actions, Error> =
        node.on_message_received(PeerId::random(), None, None, 5usize);
    assert_eq!(result, Err(Error::InvalidData));
}

#[test]
fn query_asks_the_peers_it_knows() {
    let known = PeerId::random();
    let found = PeerId::random();
    let target = PeerId::random();
    let mut node = node(vec![known], RoutingTableUpdateMode::Automatic);
    let query_id = QueryId(3);

    let actions: Actions = node.on_command(KademliaCommand::FindNode { peer: target, query_id });
    assert_eq!(actions, vec![]);
    let action = node.next_query_action().unwrap();
    assert_eq!(peers_to_reach(&action), vec![known]);

    // the peer is dialed, and the request sent once there is a substream
    let actions: Actions = node.on_query_action(action, vec![Reached::Dialing]);
    assert_eq!(actions, vec![]);
    assert_eq!(node.pending_dial_count(&known), 1);
    let result: Result<Actions, Error> = node.on_input(
        KademliaInput::Transport(TransportEvent::ConnectionEstablished {
            peer: known,
            address: Multiaddr::empty(),
        }),
        vec![Some(SubstreamId(0))],
    );
    assert_eq!(result, Ok(vec![]));
    assert!(node.is_connected(&known));
    let actions = node
        .on_input(
            KademliaInput::Transport(TransportEvent::SubstreamOpened {
                peer: known,
                protocol: ProtocolName::from_name(String::from("/ipfs/kad/1.0.0")),
                fallback: None,
                direction: Direction::Outbound(SubstreamId(0)),
                substream: 5usize,
            }),
            vec![],
        )
        .unwrap();
    assert!(matches!(
        &actions[..],
        [KademliaAction::SendRequest { query: QueryId(3), substream: 5, .. }]
    ));

    // the answer names another peer, which the routing table learns of
    let answer = Some(KademliaMessage::find_node_response(target.to_bytes(), &vec![peer(found)]));
    assert!(node.expects_answer(Some(query_id), &answer));
    let record = Record::new(RecordKey::from_bytes(vec![1]), vec![2]);
    let other = KademliaMessage::get_value_response(&record.key, &vec![], Some(&record));
    assert!(!node.expects_answer(Some(query_id), &Some(other)));
    let actions: Actions = node
        .on_input(
            KademliaInput::Executor {
                peer: known,
                query_id: Some(query_id),
                result: QueryResult::ReadSuccess { substream: 5usize, message: answer },
            },
            vec![],
        )
        .unwrap();
    assert_eq!(
        actions,
        vec![
            KademliaAction::Report(KademliaEvent::RoutingTableUpdate { peers: vec![found] }),
            KademliaAction::AddKnownAddress { peer: found, addresses: vec![local()] },
        ]
    );

    // that one cannot be reached, which ends the query
    let action = node.next_query_action().unwrap();
    assert_eq!(peers_to_reach(&action), vec![found]);
    let actions: Actions = node.on_query_action(action, vec![Reached::Unreachable]);
    assert_eq!(actions, vec![]);
    let action = node.next_query_action().unwrap();
    let actions: Actions = node.on_query_action(action, vec![]);
    assert_eq!(
        actions,
        vec![KademliaAction::Report(KademliaEvent::FindNodeSuccess {
            query_id,
            target,
            peers: vec![(known, vec![local()])],
        })]
    );
    assert!(node.next_query_action().is_none());
}

#[test]
fn lost_peer_fails_its_queries() {
    let known = PeerId::random();
    let mut node = node(vec![known], RoutingTableUpdateMode::Automatic);
    let query_id = QueryId(3);
    let _: Actions =
        node.on_command(KademliaCommand::FindNode { peer: PeerId::random(), query_id });
    let action = node.next_query_action().unwrap();
    let _: Actions = node.on_query_action(action, vec![Reached::Substream(SubstreamId(0))]);
    assert!(node.is_connected(&known));

    node.disconnect_peer(known, None);
    assert!(!node.is_connected(&known));
    assert_eq!(node.next_query_action(), Some(QueryAction::QueryFailed { query: query_id }));
}

#[test]
fn failed_dial_fails_its_queries() {
    let known = PeerId::random();
    let mut node = node(vec![known], RoutingTableUpdateMode::Automatic);
    let query_id = QueryId(3);
    let _: Actions =
        node.on_command(KademliaCommand::FindNode { peer: PeerId::random(), query_id });
    let action = node.next_query_action().unwrap();
    let _: Actions = node.on_query_action(action, vec![Reached::Dialing]);
    node.on_dial_failure(known);
    assert_eq!(node.pending_dial_count(&known), 0);
    assert_eq!(node.next_query_action(), Some(QueryAction::QueryFailed { query: query_id }));
}

#[test]
fn routing_table_is_left_alone_in_manual_mode() {
    let known = PeerId::random();
    let found = PeerId::random();
    for (mode, expected) in [
        (RoutingTableUpdateMode::Manual, 1usize),
        (RoutingTableUpdateMode::Automatic, 2),
    ] {
        let mut node = node(vec![known], mode);
        let answer = KademliaMessage::find_node_response(vec![1], &vec![peer(found)]);
        let _: Actions =
            node.on_message_received(known, Some(QueryId(0)), Some(answer), 5usize).unwrap();
        // what the node answers to a search shows what it knows
        let search = KademliaMessage::find_node(vec![1]);
        let actions: Actions =
            node.on_message_received(known, None, Some(search), 5usize).unwrap();
        match &actions[..] {
            [KademliaAction::SendMessage { message, .. }] => {
                assert_eq!(message.closer_peers.len(), expected);
            }
            _ => panic!("the search is answered"),
        }
    }
}

#[test]
fn closed_channel_ends_the_node() {
    let mut node = node(vec![], RoutingTableUpdateMode::Automatic);
    let result: Result<Actions, Error> = node.on_input(KademliaInput::Exhausted, vec![]);
    assert_eq!(result, Err(Error::EssentialTaskClosed));
}

#[test]
fn kademlia_configuration() {
    let config = Config::default();
    assert_eq!(config.replication_factor, 20);
    assert_eq!(config.record_ttl, DEFAULT_TTL);
    assert_eq!(config.update_mode, RoutingTableUpdateMode::Automatic);
    assert_eq!(config.protocol_names.len(), 1);
    assert_eq!(config.protocol_names[0].as_str(), "/ipfs/kad/1.0.0");

    let config = ConfigBuilder::default()
        .with_replication_factor(7)
        .with_record_ttl(60)
        .with_incoming_records_validation_mode(IncomingRecordValidationMode::Manual)
        .with_protocol_names(vec![ProtocolName::from_name(String::from("/kad/test"))])
        .build();
    assert_eq!(config.replication_factor, 7);
    assert_eq!(config.record_ttl, 60);
    assert_eq!(config.validation_mode, IncomingRecordValidationMode::Manual);
    assert_eq!(config.protocol_names[0].as_str(), "/kad/test");
}

#[test]
fn handle_numbers_its_queries() {
    let mut handle = KademliaHandle::new();
    let target = PeerId::random();
    let (query_id, command) = handle.find_node(target);
    assert_eq!(query_id, QueryId(0));
    assert_eq!(command, KademliaCommand::FindNode { peer: target, query_id });
    let (query_id, _) = handle.get_record(RecordKey::from_bytes(vec![1]), Quorum::All);
    assert_eq!(query_id, QueryId(1));
    assert_eq!(KademliaHandle::tried(query_id, true), Ok(query_id));
    assert_eq!(KademliaHandle::tried(query_id, false), Err(()));
    assert_eq!(
        handle.add_known_peer(target, vec![local()]),
        KademliaCommand::AddKnownPeer { peer: target, addresses: vec![local()] }
    );
}

#[test]
fn records_are_grouped_by_what_they_say() {
    let record = Record::new(RecordKey::from_bytes(vec![1]), vec![2]);
    let other = Record::new(RecordKey::from_bytes(vec![1]), vec![3]);
    let (a, b, c) = (PeerId::random(), PeerId::random(), PeerId::random());
    let grouped = group_records(vec![
        PeerRecord { peer: a, record: record.clone() },
        PeerRecord { peer: b, record: other.clone() },
        PeerRecord { peer: c, record: record.clone() },
    ]);
    assert_eq!(grouped.len(), 2);
    assert_eq!(grouped.get(&record), Some(&vec![a, c]));
    assert_eq!(grouped.get(&other), Some(&vec![b]));
}

#[test]
fn put_record_ends_with_its_quorum() {
    let (a, b) = (PeerId::random(), PeerId::random());
    let quorum = Quorum::N(NonZeroUsize::new(1).unwrap());
    assert!(NonZeroUsize::new(0).is_none());
    let mut context = PutRecordToFoundNodesContext::new(QueryId(0), vec![a, b], quorum);
    assert!(!context.is_finished());
    context.register_response_failure(a);
    assert!(context.next_action().is_none());
    context.register_response(b);
    assert!(context.is_finished());
    assert!(context.is_succeded());
    assert_eq!(context.next_action(), Some(QueryAction::QuerySucceeded { query: QueryId(0) }));

    let mut context = PutRecordToFoundNodesContext::new(QueryId(1), vec![a, b], Quorum::All);
    context.register_response(a);
    context.register_response_failure(b);
    assert!(!context.is_succeded());
    assert_eq!(context.next_action(), Some(QueryAction::QueryFailed { query: QueryId(1) }));
}

#[test]
fn providers_are_merged() {
    let (a, b) = (PeerId::random(), PeerId::random());
    let other = address("/ip4/10.0.0.1/tcp/1");
    let mut context = GetProvidersContext::new(
        GetProvidersConfig {
            local_peer_id: PeerId::random(),
            parallelism_factor: 3,
            query: QueryId(0),
            target: Key::new(RecordKey::from_bytes(vec![1])),
            known_providers: vec![],
        },
        vec![peer(a)],
    );
    assert!(matches!(context.next_action(), Some(QueryAction::SendMessage { .. })));
    assert!(!context.is_done());
    context.register_response(
        a,
        vec![
            peer(b),
            KademliaPeer::new(b, vec![other.clone(), local()], ConnectionType::CanConnect),
        ],
        vec![],
    );
    assert!(context.is_done());
    let found = context.found_providers();
    assert_eq!(found.len(), 1);
    assert_eq!(found[0].peer, b);
    assert_eq!(found[0].addresses.len(), 2);
    assert!(found[0].addresses.contains(&other));
    assert!(found[0].addresses.contains(&local()));
}

#[test]
fn peer_that_is_named_twice_is_reached_once() {
    let a = PeerId::random();
    let mut context = PutRecordToFoundNodesContext::new(QueryId(0), vec![a, a], Quorum::All);
    assert!(context.next_action().is_none());
    context.register_response(a);
    assert_eq!(context.next_action(), Some(QueryAction::QuerySucceeded { query: QueryId(0) }));
}
