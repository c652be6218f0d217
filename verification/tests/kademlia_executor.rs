//! What becomes of the messages of queries.

use litep2p::peer_id::PeerId;
use litep2p::protocol::libp2p::kademlia::executor::{
    read_message, send_message, send_request_read_response, QueryContext, ReadOutcome, READ_TIMEOUT,
};
use litep2p::protocol::libp2p::kademlia::node::QueryResult;
use litep2p::protocol::libp2p::kademlia::query::QueryId;

#[test]
fn substream_read_timeout() {
    let peer = PeerId::random();
    let QueryContext { peer: queried_peer, query_id, result } =
        read_message(peer, None, 0usize, ReadOutcome::TimedOut);

    assert_eq!(peer, queried_peer);
    assert!(query_id.is_none());
    assert!(matches!(result, QueryResult::Timeout));
    assert!(READ_TIMEOUT < 20_000_000_000);
}

#[test]
fn substream_read_substream_closed() {
    let peer = PeerId::random();
    let QueryContext { peer: queried_peer, query_id, result } =
        read_message(peer, Some(QueryId(1338)), 0usize, ReadOutcome::Closed);

    assert_eq!(peer, queried_peer);
    assert_eq!(query_id, Some(QueryId(1338)));
    assert!(matches!(result, QueryResult::SubstreamClosed));
}

#[test]
fn send_succeeds_no_message_read() {
    let peer = PeerId::random();
    // the message is sent, but the substream closes right after
    let QueryContext { peer: queried_peer, query_id, result } = send_request_read_response(
        peer,
        Some(QueryId(1337)),
        0usize,
        Some(ReadOutcome::Closed),
    );

    assert_eq!(peer, queried_peer);
    assert_eq!(query_id, Some(QueryId(1337)));
    assert!(matches!(result, QueryResult::SubstreamClosed));
}

#[test]
fn send_fails_no_message_read() {
    let peer = PeerId::random();
    let QueryContext { peer: queried_peer, query_id, result } =
        send_request_read_response(peer, Some(QueryId(1337)), 0usize, None);

    assert_eq!(peer, queried_peer);
    assert_eq!(query_id, Some(QueryId(1337)));
    assert!(matches!(result, QueryResult::SubstreamClosed));
}

#[test]
fn read_message_timeout() {
    let peer = PeerId::random();
    let QueryContext { peer: queried_peer, query_id, result } =
        read_message(peer, Some(QueryId(1336)), 0usize, ReadOutcome::TimedOut);

    assert_eq!(peer, queried_peer);
    assert_eq!(query_id, Some(QueryId(1336)));
    assert!(matches!(result, QueryResult::Timeout));
}

#[test]
fn read_message_substream_closed() {
    let peer = PeerId::random();
    let QueryContext { peer: queried_peer, query_id, result } =
        read_message(peer, Some(QueryId(1335)), 0usize, ReadOutcome::Closed);

    assert_eq!(peer, queried_peer);
    assert_eq!(query_id, Some(QueryId(1335)));
    assert!(matches!(result, QueryResult::SubstreamClosed));
}

#[test]
fn sent_message_gives_the_substream_back() {
    let peer = PeerId::random();
    let sent = send_message(peer, 5usize, true);
    assert_eq!(sent.result, QueryResult::SendSuccess { substream: 5 });
    assert!(sent.query_id.is_none());
    assert_eq!(send_message(peer, 5usize, false).result, QueryResult::SubstreamClosed);
}

#[test]
fn read_message_is_handed_on() {
    let peer = PeerId::random();
    let read = read_message(peer, Some(QueryId(1)), 5usize, ReadOutcome::Message(None));
    assert_eq!(read.result, QueryResult::ReadSuccess { substream: 5, message: None });
}
