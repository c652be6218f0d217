//! What holds of the routing table and of the node.

use super::bucket;
use super::bucket::{Slot, K_VALUE};
use super::handle::{KademliaCommand, Quorum, RoutingTableUpdateMode};
use super::message;
use super::node;
use super::node::{
    KademliaAction, KademliaActionView, KademliaInput, KademliaSettings, KademliaView, KnownPeer,
    QueryResult,
};
use super::query::QueryId;
use super::record::{Record, RecordKey, RecordView};
use super::routing_table;
use super::schema;
use super::types;
use super::types::{ConnectionType, KademliaPeerView, Key};
use crate::error::Error;
use crate::peer_id::PeerId;
use crate::protocol::TransportEvent;
use crate::time::Instant;
use crate::types::SubstreamId;
use vstd::prelude::*;

verus! {

/// Whether no bucket holds more nodes than it may.
pub open spec fn buckets_bounded(buckets: Seq<Seq<KademliaPeerView>>) -> bool {
    forall|i: int| 0 <= i < buckets.len() ==> (#[trigger] buckets[i]).len() <= K_VALUE
}

proof fn lemma_known_peer_bounded(
    local_key: Key<PeerId>,
    before: Seq<Seq<KademliaPeerView>>,
    known: KnownPeer,
    after: Seq<Seq<KademliaPeerView>>,
)
    requires
        buckets_bounded(before),
        routing_table::known_peer_added(
            local_key,
            before,
            known.peer,
            known.addresses,
            known.connection,
            after,
        ),
    ensures
        buckets_bounded(after),
        after.len() == before.len(),
{
    match routing_table::index_from(local_key, types::place_of(known.peer.spec_bytes())) {
        None => {},
        Some(index) => {
            bucket::lemma_find_peer(before[index], known.peer);
            bucket::lemma_find_evictable(before[index]);
            assert(before[index].len() <= K_VALUE);
        },
    }
}

proof fn lemma_connection_bounded(
    local_key: Key<PeerId>,
    before: Seq<Seq<KademliaPeerView>>,
    peer: PeerId,
    connection: ConnectionType,
    after: Seq<Seq<KademliaPeerView>>,
)
    requires
        buckets_bounded(before),
        routing_table::connection_set(local_key, before, peer, connection, after),
    ensures
        buckets_bounded(after),
        after.len() == before.len(),
{
    match routing_table::index_from(local_key, types::place_of(peer.spec_bytes())) {
        None => {},
        Some(index) => {
            bucket::lemma_find_peer(before[index], peer);
            bucket::lemma_find_evictable(before[index]);
            assert(before[index].len() <= K_VALUE);
        },
    }
}

proof fn lemma_known_peers_bounded(
    local_key: Key<PeerId>,
    before: Seq<Seq<KademliaPeerView>>,
    known: Seq<KnownPeer>,
    after: Seq<Seq<KademliaPeerView>>,
)
    requires
        buckets_bounded(before),
        node::known_peers_added(local_key, before, known, after),
    ensures
        buckets_bounded(after),
        after.len() == before.len(),
    decreases known.len(),
{
    if known.len() > 0 {
        let middle = choose|middle: Seq<Seq<KademliaPeerView>>|
            {
                &&& node::known_peers_added(local_key, before, known.drop_last(), middle)
                &&& #[trigger] routing_table::known_peer_added(
                    local_key,
                    middle,
                    known.last().peer,
                    known.last().addresses,
                    known.last().connection,
                    after,
                )
            };
        lemma_known_peers_bounded(local_key, before, known.drop_last(), middle);
        lemma_known_peer_bounded(local_key, middle, known.last(), after);
    }
}

proof fn lemma_look_up_bounded(
    local_key: Key<PeerId>,
    before: Seq<Seq<KademliaPeerView>>,
    peers: Seq<PeerId>,
    after: Seq<Seq<KademliaPeerView>>,
    found: Seq<KademliaPeerView>,
)
    requires
        buckets_bounded(before),
        node::all_looked_up(local_key, before, peers, after, found),
    ensures
        buckets_bounded(after),
        after.len() == before.len(),
    decreases peers.len(),
{
    if peers.len() > 0 {
        let (middle, held, last) = choose|
            middle: Seq<Seq<KademliaPeerView>>,
            held: Seq<KademliaPeerView>,
            last: Option<KademliaPeerView>,
        |
            {
                &&& node::all_looked_up(local_key, before, peers.drop_last(), middle, held)
                &&& #[trigger] routing_table::looked_up(
                    local_key,
                    middle,
                    peers.last(),
                    after,
                    last,
                )
                &&& found == #[trigger] node::with_found(held, last)
            };
        lemma_look_up_bounded(local_key, before, peers.drop_last(), middle, held);
        match routing_table::index_from(local_key, types::place_of(peers.last().spec_bytes())) {
            None => {},
            Some(index) => {
                assert(middle[index].len() <= K_VALUE);
            },
        }
    }
}

proof fn lemma_open_failure_bounded(
    settings: KademliaSettings,
    before: KademliaView,
    id: SubstreamId,
    after: KademliaView,
)
    requires
        buckets_bounded(before.buckets),
        node::open_failed(settings, before, id, after),
    ensures
        buckets_bounded(after.buckets),
        after.buckets.len() == before.buckets.len(),
{
    let peer = before.pending_substreams[id];
    if before.pending_substreams.contains_key(id) && before.peers.contains_key(peer) {
        lemma_connection_bounded(
            settings.local_key,
            before.buckets,
            peer,
            ConnectionType::NotConnected,
            after.buckets,
        );
    }
}

proof fn lemma_answer_bounded<S>(
    settings: KademliaSettings,
    before: KademliaView,
    peer: PeerId,
    query: Option<QueryId>,
    message: Option<schema::Message>,
    substream: S,
    now: Instant,
    after: KademliaView,
    result: Result<Vec<KademliaAction<S>>, Error>,
)
    requires
        buckets_bounded(before.buckets),
        node::message_received(
            settings,
            before,
            peer,
            query,
            message,
            substream,
            now,
            after,
            result,
        ),
    ensures
        buckets_bounded(after.buckets),
        after.buckets.len() == before.buckets.len(),
{
    let content = match message {
        Some(message) => message::parsed_message(message@),
        None => None,
    };
    if content is Some && query is Some {
        let peers = match content.unwrap() {
            message::KademliaMessageView::FindNode { peers, .. } => peers,
            message::KademliaMessageView::GetRecord { peers, .. } => peers,
            message::KademliaMessageView::PutValue { .. } => Seq::empty(),
        };
        if !(content.unwrap() is PutValue) && settings.update_mode
            == RoutingTableUpdateMode::Automatic {
            let found = node::others(settings.local_key.preimage, peers);
            lemma_known_peers_bounded(
                settings.local_key,
                before.buckets,
                node::discovered(before.peers, found),
                after.buckets,
            );
        }
    }
}

proof fn lemma_command_bounded<S>(
    settings: KademliaSettings,
    before: KademliaView,
    command: KademliaCommand,
    now: Instant,
    after: KademliaView,
    actions: Seq<KademliaActionView<S>>,
)
    requires
        buckets_bounded(before.buckets),
        node::command_handled(settings, before, command, now, after, actions),
    ensures
        buckets_bounded(after.buckets),
        after.buckets.len() == before.buckets.len(),
{
    match command {
        KademliaCommand::PutRecordToPeers { record, query_id, peers, update_local_store } => {
            match after.queries[query_id] {
                super::query::engine::QueryView::PutRecordToPeers { record: _, peers: found } => {
                    lemma_look_up_bounded(
                        settings.local_key,
                        before.buckets,
                        peers@,
                        after.buckets,
                        types::peer_views(found),
                    );
                },
                _ => {},
            }
        },
        KademliaCommand::AddKnownPeer { peer, addresses } => {
            lemma_known_peer_bounded(
                settings.local_key,
                before.buckets,
                KnownPeer {
                    peer,
                    addresses: crate::address::address_views(addresses@),
                    connection: node::connection_of(before.peers, peer),
                },
                after.buckets,
            );
        },
        _ => {},
    }
}

/// No input makes a bucket of the routing table hold more nodes than it may.
pub proof fn law_buckets_bounded<S>(
    settings: KademliaSettings,
    before: KademliaView,
    input: KademliaInput<S>,
    opened: Seq<Option<SubstreamId>>,
    now: Instant,
    after: KademliaView,
    result: Result<Vec<KademliaAction<S>>, Error>,
)
    requires
        buckets_bounded(before.buckets),
        node::input_handled(settings, before, input, opened, now, after, result),
    ensures
        buckets_bounded(after.buckets),
        after.buckets.len() == before.buckets.len(),
{
    let local_key = settings.local_key;
    match (input, result) {
        (KademliaInput::Transport(event), Ok(_)) => match event {
            TransportEvent::ConnectionEstablished { peer, .. } => {
                if !before.peers.contains_key(peer) {
                    lemma_connection_bounded(
                        local_key,
                        before.buckets,
                        peer,
                        ConnectionType::Connected,
                        after.buckets,
                    );
                }
            },
            TransportEvent::ConnectionClosed { peer } => {
                lemma_connection_bounded(
                    local_key,
                    before.buckets,
                    peer,
                    ConnectionType::NotConnected,
                    after.buckets,
                );
            },
            TransportEvent::SubstreamOpenFailure { substream, .. } => {
                lemma_open_failure_bounded(settings, before, substream, after);
            },
            _ => {},
        },
        (KademliaInput::Executor { peer, query_id, result }, Ok(actions)) => match result {
            QueryResult::ReadSuccess { substream, message } => {
                let done = Ok::<Vec<KademliaAction<S>>, Error>(actions);
                let failed = Err::<Vec<KademliaAction<S>>, Error>(Error::InvalidData);
                if node::message_received(
                    settings,
                    before,
                    peer,
                    query_id,
                    message,
                    substream,
                    now,
                    after,
                    done,
                ) {
                    lemma_answer_bounded(
                        settings,
                        before,
                        peer,
                        query_id,
                        message,
                        substream,
                        now,
                        after,
                        done,
                    );
                } else {
                    lemma_answer_bounded(
                        settings,
                        before,
                        peer,
                        query_id,
                        message,
                        substream,
                        now,
                        after,
                        failed,
                    );
                }
            },
            QueryResult::SendSuccess { .. } => {},
            _ => {
                lemma_connection_bounded(
                    local_key,
                    before.buckets,
                    peer,
                    ConnectionType::NotConnected,
                    after.buckets,
                );
            },
        },
        (KademliaInput::Command(command), Ok(actions)) => {
            lemma_command_bounded::<S>(
                settings,
                before,
                command,
                now,
                after,
                node::node_actions(actions@),
            );
        },
        _ => {},
    }
}

/// Adding a known peer evicts no peer that is connected, and evicts nobody while its bucket has
/// room.
pub proof fn law_connected_peers_kept(
    local_key: Key<PeerId>,
    before: Seq<Seq<KademliaPeerView>>,
    peer: PeerId,
    addresses: Seq<Seq<u8>>,
    connection: ConnectionType,
    after: Seq<Seq<KademliaPeerView>>,
    i: int,
    j: int,
)
    requires
        routing_table::known_peer_added(local_key, before, peer, addresses, connection, after),
        0 <= i < before.len(),
        0 <= j < before[i].len(),
        !bucket::evictable(before[i][j]) || before[i].len() < K_VALUE,
    ensures
        after[i].len() > j,
        after[i][j].peer == before[i][j].peer,
        after[i][j].connection == before[i][j].connection,
{
    match routing_table::index_from(local_key, types::place_of(peer.spec_bytes())) {
        None => {},
        Some(index) => {
            if index == i {
                bucket::lemma_find_peer(before[i], peer);
                bucket::lemma_find_evictable(before[i]);
                match bucket::slot_for(before[i], peer) {
                    Slot::Fresh => {
                        assert(after[i].drop_last()[j] == before[i][j]);
                    },
                    _ => {},
                }
            }
        },
    }
}

/// A known peer with addresses is in its bucket once it has been added, with those addresses,
/// unless the bucket is full of other peers that are connected.
pub proof fn law_known_peer_in_table(
    local_key: Key<PeerId>,
    before: Seq<Seq<KademliaPeerView>>,
    peer: PeerId,
    addresses: Seq<Seq<u8>>,
    connection: ConnectionType,
    after: Seq<Seq<KademliaPeerView>>,
    index: int,
)
    requires
        routing_table::known_peer_added(local_key, before, peer, addresses, connection, after),
        routing_table::index_from(local_key, types::place_of(peer.spec_bytes())) == Some(index),
        addresses.len() > 0,
        !(bucket::slot_for(before[index], peer) is Full),
    ensures
        exists|j: int|
            0 <= j < after[index].len() && (#[trigger] after[index][j]).peer == peer
                && after[index][j].addresses == addresses,
{
    bucket::lemma_find_evictable(before[index]);
    bucket::lemma_find_peer(before[index], peer);
    let j = match bucket::slot_for(before[index], peer) {
        Slot::Occupied(i) => i,
        Slot::Fresh => before[index].len() as int,
        Slot::Evict(i) => i,
        Slot::Full => 0,
    };
    assert(after[index][j].peer == peer);
}

/// The local node has no place in its own routing table: neither adding it nor a change of its
/// connection touches a bucket.
pub proof fn law_local_peer_not_in_table(
    local_key: Key<PeerId>,
    before: Seq<Seq<KademliaPeerView>>,
    addresses: Seq<Seq<u8>>,
    connection: ConnectionType,
    after: Seq<Seq<KademliaPeerView>>,
)
    requires
        local_key.is_of_peer(local_key.preimage),
        routing_table::known_peer_added(
            local_key,
            before,
            local_key.preimage,
            addresses,
            connection,
            after,
        ) || routing_table::connection_set(
            local_key,
            before,
            local_key.preimage,
            connection,
            after,
        ),
    ensures
        after == before,
{
    types::law_distance_zero(local_key.bytes, local_key.bytes);
}

/// A connection that is lost takes no peer out of the routing table: every node stays where it is,
/// and only its connection may change.
pub proof fn law_lost_peer_stays_in_table(
    settings: KademliaSettings,
    before: KademliaView,
    peer: PeerId,
    query: Option<QueryId>,
    after: KademliaView,
    i: int,
    j: int,
)
    requires
        node::disconnected(settings, before, peer, query, after),
        0 <= i < before.buckets.len(),
        0 <= j < before.buckets[i].len(),
    ensures
        after.buckets[i].len() > j,
        after.buckets[i][j] == before.buckets[i][j] || after.buckets[i][j] == (KademliaPeerView {
            connection: ConnectionType::NotConnected,
            ..before.buckets[i][j]
        }),
{
    let nodes = before.buckets[i];
    match routing_table::index_from(
        settings.local_key,
        types::place_of(peer.spec_bytes()),
    ) {
        None => {},
        Some(index) => {
            if index == i {
                bucket::lemma_find_peer(nodes, peer);
                match bucket::slot_for(nodes, peer) {
                    Slot::Fresh => {
                        assert(after.buckets[i].drop_last()[j] == nodes[j]);
                    },
                    _ => {},
                }
            }
        },
    }
}

/// A peer that disconnects is no longer connected, none of the queries that had something pending
/// with it waits for it, and all other peers and queries stay as they are.
pub proof fn law_disconnect_fails_queries(
    settings: KademliaSettings,
    before: KademliaView,
    peer: PeerId,
    query: Option<QueryId>,
    after: KademliaView,
)
    requires
        node::disconnected(settings, before, peer, query, after),
    ensures
        !after.peers.contains_key(peer),
        forall|other: PeerId|
            other != peer ==> (#[trigger] after.peers.contains_key(other)
                <==> before.peers.contains_key(other)),
        forall|q: QueryId| #[trigger]
            after.queries.contains_key(q) <==> before.queries.contains_key(q),
        before.peers.contains_key(peer) ==> forall|q: QueryId| #[trigger]
            node::queries_of(before.peers[peer]).contains(q) ==> !node::awaits(
                after.queries,
                q,
                peer,
            ),
        query matches Some(q) ==> !node::awaits(after.queries, q, peer),
        forall|q: QueryId|
            query != Some(q) && (before.peers.contains_key(peer) ==> !node::queries_of(
                before.peers[peer],
            ).contains(q)) && before.queries.contains_key(q) ==> #[trigger] after.queries[q]
                == before.queries[q],
{
}

/// A record that a peer asks to be stored is what the next one is answered who asks for its key,
/// as long as the store takes it in. Publisher and expiration do not travel.
pub proof fn law_put_value_then_get_value<S>(
    settings: KademliaSettings,
    before: KademliaView,
    record: RecordView,
    put: schema::Message,
    sender: PeerId,
    sent_on: S,
    then: Instant,
    middle: KademliaView,
    stored: Vec<KademliaAction<S>>,
    get: schema::Message,
    asker: PeerId,
    asked_on: S,
    now: Instant,
    after: KademliaView,
    actions: Vec<KademliaAction<S>>,
)
    requires
        record.key.len() > 0,
        put@ == message::put_value_message(record),
        get@ == message::get_record_message(record.key),
        before.store.takes(settings.store, message::parsed_record(message::wire_record(record))),
        node::message_received(
            settings,
            before,
            sender,
            None,
            Some(put),
            sent_on,
            then,
            middle,
            Ok::<Vec<KademliaAction<S>>, Error>(stored),
        ),
        node::message_received(
            settings,
            middle,
            asker,
            None,
            Some(get),
            asked_on,
            now,
            after,
            Ok::<Vec<KademliaAction<S>>, Error>(actions),
        ),
    ensures
        actions@.len() == 1,
        node::node_actions(actions@)[0] matches KademliaActionView::SendMessage {
            peer,
            message,
            substream,
        } && peer == asker && substream == asked_on && message.key == record.key && message.record
            == Some(message::wire_record(record)),
        after == middle,
{
    let kept = message::parsed_record(message::wire_record(record));
    assert(middle.store.get(record.key, now) == Some(kept));
    assert(node::node_actions(actions@).len() == actions@.len());
}

/// A record that is put is found in the local store by the next request that a single answer is
/// enough for, until it expires.
pub proof fn law_put_record_then_get_record<S>(
    settings: KademliaSettings,
    before: KademliaView,
    record: Record,
    put: QueryId,
    then: Instant,
    middle: KademliaView,
    stored: Seq<KademliaActionView<S>>,
    key: RecordKey,
    get: QueryId,
    now: Instant,
    after: KademliaView,
    actions: Seq<KademliaActionView<S>>,
)
    requires
        key@ == record.key@,
        before.store.takes(settings.store, record@),
        !record@.expired(now),
        node::command_handled(
            settings,
            before,
            KademliaCommand::PutRecord { record, query_id: put },
            then,
            middle,
            stored,
        ),
        node::command_handled(
            settings,
            middle,
            KademliaCommand::GetRecord { key, quorum: Quorum::One, query_id: get },
            now,
            after,
            actions,
        ),
    ensures
        actions == seq![node::local_record::<S>(get, record@)],
        after == middle,
{
    assert(middle.store.get(key@, now) == Some(record@));
}

/// Unless the routing table is to be updated by itself, no answer of a peer changes it.
pub proof fn law_manual_update_mode<S>(
    settings: KademliaSettings,
    before: KademliaView,
    peer: PeerId,
    query: Option<QueryId>,
    message: Option<schema::Message>,
    substream: S,
    now: Instant,
    after: KademliaView,
    result: Result<Vec<KademliaAction<S>>, Error>,
)
    requires
        settings.update_mode == RoutingTableUpdateMode::Manual,
        node::message_received(
            settings,
            before,
            peer,
            query,
            message,
            substream,
            now,
            after,
            result,
        ),
    ensures
        after.buckets == before.buckets,
{
}

} // verus!
