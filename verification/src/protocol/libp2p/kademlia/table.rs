//! What enters the routing table and the store, and what is made of what they hold.

use super::bucket;
use super::bucket::Slot;
use super::flows;
use super::handle::{KademliaCommand, Quorum, RoutingTableUpdateMode};
use super::message;
use super::node;
use super::node::{KademliaAction, KademliaInput, KademliaSettings, KademliaView, Reached};
use super::query::engine;
use super::query::engine::QueryView;
use super::query::{QueryAction, QueryId};
use super::record::{PeerRecord, Record, RecordKey};
use super::routing_table;
use super::schema::Message;
use super::serving;
use super::types;
use super::types::{ConnectionType, KademliaPeer, KademliaPeerView};
use crate::address;
use crate::address::Multiaddr;
use crate::peer_id::PeerId;
use crate::protocol::TransportEvent;
use crate::time::Instant;
use crate::types::SubstreamId;
use vstd::prelude::*;

verus! {

/// Whether `peer` belongs into the bucket with index `index`.
pub open spec fn belongs_to(settings: KademliaSettings, peer: PeerId, index: int) -> bool {
    routing_table::in_bucket(
        types::xor_distance(settings.local_key.bytes, types::place_of(peer.spec_bytes())).value(),
        index,
    )
}

/// Whether a bucket holds `peer`.
pub open spec fn holds(nodes: Seq<KademliaPeerView>, peer: PeerId) -> bool {
    exists|j: int| 0 <= j < nodes.len() && (#[trigger] nodes[j]).peer == peer
}

/// Whether a bucket has room for another peer: it is not full, or one of its nodes is not connected
/// and can be replaced.
pub open spec fn has_room(nodes: Seq<KademliaPeerView>) -> bool {
    nodes.len() < 20 || exists|j: int|
        0 <= j < nodes.len() && ((#[trigger] nodes[j]).connection == ConnectionType::NotConnected
            || nodes[j].connection == ConnectionType::CannotConnect)
}

/// Whether a bucket holds `peer` with `addresses`, and with `connection` if it is new to it.
pub open spec fn has_entered(
    before: Seq<KademliaPeerView>,
    peer: PeerId,
    addresses: Seq<Seq<u8>>,
    connection: ConnectionType,
    after: Seq<KademliaPeerView>,
) -> bool {
    exists|j: int|
        0 <= j < after.len() && (#[trigger] after[j]).peer == peer && after[j].addresses
            == addresses && (!holds(before, peer) ==> after[j].connection == connection
            && after[j].key.is_of_peer(peer))
}

proof fn lemma_index(settings: KademliaSettings, peer: PeerId, index: int)
    requires
        belongs_to(settings, peer, index),
    ensures
        routing_table::index_from(
            settings.local_key,
            types::place_of(peer.spec_bytes()),
        ) == Some(index),
{
    routing_table::law_buckets_partition_distances(
        types::xor_distance(settings.local_key.bytes, types::place_of(peer.spec_bytes())).value(),
        index,
        index,
    );
}

proof fn lemma_entered(
    settings: KademliaSettings,
    before: Seq<Seq<KademliaPeerView>>,
    peer: PeerId,
    addresses: Seq<Seq<u8>>,
    connection: ConnectionType,
    after: Seq<Seq<KademliaPeerView>>,
    index: int,
)
    requires
        belongs_to(settings, peer, index),
        addresses.len() > 0,
        holds(before[index], peer) || has_room(before[index]),
        routing_table::known_peer_added(
            settings.local_key,
            before,
            peer,
            addresses,
            connection,
            after,
        ),
    ensures
        has_entered(before[index], peer, addresses, connection, after[index]),
        after.len() == before.len(),
        forall|i: int| 0 <= i < before.len() && i != index ==> #[trigger] after[i] == before[i],
{
    lemma_index(settings, peer, index);
    let nodes = before[index];
    bucket::lemma_find_evictable(nodes);
    bucket::lemma_find_peer(nodes, peer);
    let place = match bucket::slot_for(nodes, peer) {
        Slot::Occupied(i) => i,
        Slot::Fresh => nodes.len() as int,
        Slot::Evict(i) => i,
        Slot::Full => 0,
    };
    match bucket::slot_for(nodes, peer) {
        Slot::Occupied(i) => {
            assert(nodes[i].peer == peer);
        },
        Slot::Full => {
            if holds(nodes, peer) {
                let j = choose|j: int| 0 <= j < nodes.len() && (#[trigger] nodes[j]).peer == peer;
                assert(false);
            } else {
                let j = choose|j: int|
                    0 <= j < nodes.len() && ((#[trigger] nodes[j]).connection
                        == ConnectionType::NotConnected || nodes[j].connection
                        == ConnectionType::CannotConnect);
                assert(bucket::evictable(nodes[j]));
            }
        },
        _ => {},
    }
    assert(after[index][place].peer == peer);
}

/// A peer that the user names with addresses enters the routing table if there is room for it: with
/// those addresses, and as connected if it is.
pub proof fn law_named_peer_enters<S>(
    settings: KademliaSettings,
    before: KademliaView,
    peer: PeerId,
    addresses: Vec<Multiaddr>,
    opened: Seq<Option<SubstreamId>>,
    now: Instant,
    after: KademliaView,
    actions: Vec<KademliaAction<S>>,
    index: int,
)
    requires
        belongs_to(settings, peer, index),
        addresses@.len() > 0,
        holds(before.buckets[index], peer) || has_room(before.buckets[index]),
        flows::leads(
            settings,
            before,
            KademliaInput::Command(KademliaCommand::AddKnownPeer { peer, addresses }),
            opened,
            now,
            after,
            actions,
        ),
    ensures
        has_entered(
            before.buckets[index],
            peer,
            address::address_views(addresses@),
            if before.peers.contains_key(peer) {
                ConnectionType::Connected
            } else {
                ConnectionType::NotConnected
            },
            after.buckets[index],
        ),
        forall|i: int|
            0 <= i < before.buckets.len() && i != index ==> #[trigger] after.buckets[i]
                == before.buckets[i],
{
    lemma_entered(
        settings,
        before.buckets,
        peer,
        address::address_views(addresses@),
        node::connection_of(before.peers, peer),
        after.buckets,
        index,
    );
}

/// A peer that the answer to a query names enters the routing table by itself if it is to be
/// updated automatically and there is room for it, and does not otherwise.
pub proof fn law_discovered_peer_enters<S>(
    settings: KademliaSettings,
    before: KademliaView,
    sender: PeerId,
    query: QueryId,
    answer: Message,
    found: KademliaPeerView,
    substream: S,
    now: Instant,
    after: KademliaView,
    actions: Vec<KademliaAction<S>>,
    index: int,
)
    requires
        answer.message_type == 4 || answer.message_type == 1,
        message::parsed_peers(answer@.closer_peers) == seq![found],
        found.peer != settings.local_key.preimage,
        found.addresses.len() > 0,
        belongs_to(settings, found.peer, index),
        holds(before.buckets[index], found.peer) || has_room(before.buckets[index]),
        serving::reads(
            settings,
            before,
            sender,
            Some(query),
            Some(answer),
            substream,
            now,
            after,
            actions,
        ),
    ensures
        settings.update_mode == RoutingTableUpdateMode::Automatic ==> has_entered(
            before.buckets[index],
            found.peer,
            found.addresses,
            if before.peers.contains_key(found.peer) {
                ConnectionType::Connected
            } else {
                ConnectionType::NotConnected
            },
            after.buckets[index],
        ),
        settings.update_mode == RoutingTableUpdateMode::Manual ==> after.buckets == before.buckets,
{
    reveal(Seq::filter);
    let local = settings.local_key.preimage;
    let keep = |p: KademliaPeerView| p.peer != local;
    let all = seq![found];
    assert(all.drop_last() =~= Seq::<KademliaPeerView>::empty());
    assert(all.drop_last().filter(keep) =~= Seq::<KademliaPeerView>::empty());
    assert(all.last() == found);
    let others = node::others(local, all);
    assert(others =~= seq![found]);
    if settings.update_mode == RoutingTableUpdateMode::Automatic {
        let known = node::discovered(before.peers, others);
        assert(known.len() == 1);
        let middle = choose|middle: Seq<Seq<KademliaPeerView>>|
            {
                &&& node::known_peers_added(
                    settings.local_key,
                    before.buckets,
                    known.drop_last(),
                    middle,
                )
                &&& #[trigger] routing_table::known_peer_added(
                    settings.local_key,
                    middle,
                    known.last().peer,
                    known.last().addresses,
                    known.last().connection,
                    after.buckets,
                )
            };
        assert(known.drop_last().len() == 0);
        lemma_entered(
            settings,
            before.buckets,
            found.peer,
            found.addresses,
            node::connection_of(before.peers, found.peer),
            after.buckets,
            index,
        );
    }
}

/// The routing table notes whether a peer that it holds is connected: once a connection is there it
/// is, and once it is gone it is not. Nothing else changes in the table.
pub proof fn law_connection_noted<S>(
    settings: KademliaSettings,
    before: KademliaView,
    peer: PeerId,
    event: TransportEvent<S>,
    opened: Seq<Option<SubstreamId>>,
    now: Instant,
    after: KademliaView,
    actions: Vec<KademliaAction<S>>,
    index: int,
    j: int,
)
    requires
        belongs_to(settings, peer, index),
        0 <= j < before.buckets[index].len(),
        before.buckets[index][j].peer == peer,
        forall|k: int|
            0 <= k < before.buckets[index].len() && k != j ==> (
            #[trigger] before.buckets[index][k]).peer != peer,
        flows::leads(
            settings,
            before,
            KademliaInput::Transport(event),
            opened,
            now,
            after,
            actions,
        ),
    ensures
        (event matches TransportEvent::ConnectionEstablished { peer: p, .. } && p == peer
            && !before.peers.contains_key(peer)) ==> after.buckets == before.buckets.update(
            index,
            before.buckets[index].update(
                j,
                KademliaPeerView {
                    connection: ConnectionType::Connected,
                    ..before.buckets[index][j]
                },
            ),
        ),
        event == (TransportEvent::<S>::ConnectionClosed { peer }) ==> after.buckets
            == before.buckets.update(
            index,
            before.buckets[index].update(
                j,
                KademliaPeerView {
                    connection: ConnectionType::NotConnected,
                    ..before.buckets[index][j]
                },
            ),
        ),
{
    lemma_index(settings, peer, index);
    bucket::lemma_find_peer(before.buckets[index], peer);
    assert(bucket::find_peer(before.buckets[index], peer) == j);
}

/// A record that the local store has counts for a user to whom one answer is not enough: the search
/// for it starts with one record known, and nothing is reported yet.
pub proof fn law_local_record_counts<S>(
    settings: KademliaSettings,
    before: KademliaView,
    key: RecordKey,
    quorum: Quorum,
    query: QueryId,
    opened: Seq<Option<SubstreamId>>,
    now: Instant,
    after: KademliaView,
    actions: Vec<KademliaAction<S>>,
)
    requires
        !(quorum is One),
        before.store.records.contains_key(key@),
        !before.store.records[key@].expired(now),
        flows::leads(
            settings,
            before,
            KademliaInput::Command(KademliaCommand::GetRecord { key, quorum, query_id: query }),
            opened,
            now,
            after,
            actions,
        ),
    ensures
        actions@.len() == 0,
        after.queries.contains_key(query),
        after.queries[query] matches QueryView::GetRecord { config, state }
            && config.known_records == 1 && config.quorum == quorum && config.target.preimage@ == key@
            && config.target.bytes == types::place_of(key@) && state.found.len() == 0,
        after.store == before.store,
{
    assert(node::node_actions(actions@).len() == actions@.len());
    let peers = choose|peers: Seq<KademliaPeer>|
        {
            &&& #[trigger] node::closest_known(settings, before, types::place_of(key@), peers)
            &&& engine::get_record_query(
                settings.engine,
                query,
                key@,
                peers,
                quorum,
                1,
                after.queries[query],
            )
        };
    assert(engine::get_record_query(
        settings.engine,
        query,
        key@,
        peers,
        quorum,
        1,
        after.queries[query],
    ));
}

/// A record that a search has found is offered to the local store, in the order in which the
/// records were found.
pub proof fn law_found_records_stored<S>(
    settings: KademliaSettings,
    before: KademliaView,
    query: QueryId,
    found: Vec<PeerRecord>,
    first: Vec<PeerRecord>,
    last: Vec<PeerRecord>,
    outcomes: Seq<Reached>,
    middle: KademliaView,
    end: KademliaView,
    after: KademliaView,
    some: Seq<KademliaAction<S>>,
    more: Seq<KademliaAction<S>>,
    actions: Seq<KademliaAction<S>>,
)
    requires
        last@.len() == 1,
        found@ == first@ + last@,
        flows::acts(
            settings,
            before,
            QueryAction::GetRecordQueryDone { query_id: query, records: first },
            outcomes,
            middle,
            some,
        ),
        flows::acts(
            settings,
            middle,
            QueryAction::GetRecordQueryDone { query_id: query, records: last },
            outcomes,
            end,
            more,
        ),
        flows::acts(
            settings,
            before,
            QueryAction::GetRecordQueryDone { query_id: query, records: found },
            outcomes,
            after,
            actions,
        ),
    ensures
        after.store == end.store,
        ({
            let record = last@[0].record@;
            let records = middle.store.records;
            &&& record.value.len() < settings.store.max_record_size_bytes && (records.contains_key(
                record.key,
            ) ==> !(record.expires is Some)) && (!records.contains_key(record.key)
                ==> records.len() < settings.store.max_records) ==> end.store.records
                == records.insert(record.key, record)
            &&& forall|key: Seq<u8>|
                key != record.key ==> (#[trigger] end.store.records.contains_key(key)
                    <==> records.contains_key(key)) && end.store.records[key] == records[key]
        }),
{
    let all = found@;
    assert(all.drop_last() =~= first@);
    assert(all.last() == last@[0]);
    assert(last@.drop_last().len() == 0);
    assert(last@.last() == last@[0]);
    assert(node::stored_all(middle.store, settings.store, last@.drop_last()) == middle.store);
}

proof fn lemma_all_found(
    settings: KademliaSettings,
    before: Seq<Seq<KademliaPeerView>>,
    peers: Seq<PeerId>,
    indices: Seq<int>,
    after: Seq<Seq<KademliaPeerView>>,
    found: Seq<KademliaPeerView>,
)
    requires
        indices.len() == peers.len(),
        forall|i: int|
            0 <= i < peers.len() ==> belongs_to(settings, #[trigger] peers[i], indices[i]) && holds(
                before[indices[i]],
                peers[i],
            ),
        node::all_looked_up(settings.local_key, before, peers, after, found),
    ensures
        after == before,
        found.len() == peers.len(),
        forall|i: int|
            0 <= i < peers.len() ==> (#[trigger] found[i]).peer == peers[i]
                && before[indices[i]].contains(found[i]),
    decreases peers.len(),
{
    if peers.len() > 0 {
        let rest = peers.drop_last();
        let n = peers.len() - 1;
        let (middle, held, last) = choose|
            middle: Seq<Seq<KademliaPeerView>>,
            held: Seq<KademliaPeerView>,
            last: Option<KademliaPeerView>,
        |
            {
                &&& node::all_looked_up(settings.local_key, before, rest, middle, held)
                &&& #[trigger] routing_table::looked_up(
                    settings.local_key,
                    middle,
                    peers.last(),
                    after,
                    last,
                )
                &&& found == #[trigger] node::with_found(held, last)
            };
        assert forall|i: int| 0 <= i < rest.len() implies belongs_to(
            settings,
            #[trigger] rest[i],
            indices.drop_last()[i],
        ) && holds(before[indices.drop_last()[i]], rest[i]) by {
            assert(rest[i] == peers[i]);
        }
        lemma_all_found(settings, before, rest, indices.drop_last(), middle, held);
        assert(belongs_to(settings, peers[n], indices[n]));
        lemma_index(settings, peers[n], indices[n]);
        let nodes = before[indices[n]];
        bucket::lemma_find_peer(nodes, peers[n]);
        let j = choose|j: int| 0 <= j < nodes.len() && (#[trigger] nodes[j]).peer == peers[n];
        let k = bucket::find_peer(nodes, peers[n]);
        assert(k <= j);
        assert(last == Some(nodes[k]));
        assert(after =~= before);
        assert forall|i: int| 0 <= i < peers.len() implies (#[trigger] found[i]).peer == peers[i]
            && before[indices[i]].contains(found[i]) by {
            if i < n {
                assert(held[i].peer == rest[i]);
                assert(found[i] == held[i]);
            } else {
                assert(nodes[k] == found[i]);
            }
        }
    }
}

/// A record that is to be put to peers that the routing table holds goes to exactly those, in the
/// order in which they were given, and the table stays as it is.
pub proof fn law_given_peers_used<S>(
    settings: KademliaSettings,
    before: KademliaView,
    record: Record,
    query: QueryId,
    peers: Vec<PeerId>,
    indices: Seq<int>,
    update_local_store: bool,
    opened: Seq<Option<SubstreamId>>,
    now: Instant,
    after: KademliaView,
    actions: Vec<KademliaAction<S>>,
)
    requires
        indices.len() == peers@.len(),
        forall|i: int|
            0 <= i < peers@.len() ==> belongs_to(settings, #[trigger] peers@[i], indices[i])
                && holds(before.buckets[indices[i]], peers@[i]),
        flows::leads(
            settings,
            before,
            KademliaInput::Command(
                KademliaCommand::PutRecordToPeers {
                    record,
                    query_id: query,
                    peers,
                    update_local_store,
                },
            ),
            opened,
            now,
            after,
            actions,
        ),
    ensures
        after.buckets == before.buckets,
        after.queries[query] matches QueryView::PutRecordToPeers { record: r, peers: used } && r
            == record && used.len() == peers@.len() && forall|i: int|
            0 <= i < peers@.len() ==> (#[trigger] used[i]).peer == peers@[i],
{
    let used = after.queries[query]->PutRecordToPeers_peers;
    let views = types::peer_views(used);
    lemma_all_found(settings, before.buckets, peers@, indices, after.buckets, views);
    assert forall|i: int| 0 <= i < peers@.len() implies (#[trigger] used[i]).peer == peers@[i] by {
        assert(views[i] == used[i]@);
        assert(views[i].peer == peers@[i]);
    }
}

/// A record that is to be put to a peer that the routing table does not hold goes to nobody, unless
/// its bucket is full and has a node that can be replaced.
pub proof fn law_unknown_peer_left_out<S>(
    settings: KademliaSettings,
    before: KademliaView,
    record: Record,
    query: QueryId,
    peers: Vec<PeerId>,
    index: int,
    update_local_store: bool,
    opened: Seq<Option<SubstreamId>>,
    now: Instant,
    after: KademliaView,
    actions: Vec<KademliaAction<S>>,
)
    requires
        peers@.len() == 1,
        belongs_to(settings, peers@[0], index),
        !holds(before.buckets[index], peers@[0]),
        before.buckets[index].len() < 20 || !has_room(before.buckets[index]),
        flows::leads(
            settings,
            before,
            KademliaInput::Command(
                KademliaCommand::PutRecordToPeers {
                    record,
                    query_id: query,
                    peers,
                    update_local_store,
                },
            ),
            opened,
            now,
            after,
            actions,
        ),
    ensures
        after.queries[query] matches QueryView::PutRecordToPeers { peers: used, .. } && used.len()
            == 0,
{
    let peer = peers@[0];
    let used = after.queries[query]->PutRecordToPeers_peers;
    let views = types::peer_views(used);
    let (middle, held, last) = choose|
        middle: Seq<Seq<KademliaPeerView>>,
        held: Seq<KademliaPeerView>,
        last: Option<KademliaPeerView>,
    |
        {
            &&& node::all_looked_up(
                settings.local_key,
                before.buckets,
                peers@.drop_last(),
                middle,
                held,
            )
            &&& #[trigger] routing_table::looked_up(
                settings.local_key,
                middle,
                peers@.last(),
                after.buckets,
                last,
            )
            &&& views == #[trigger] node::with_found(held, last)
        };
    assert(peers@.drop_last().len() == 0);
    let nodes = before.buckets[index];
    lemma_index(settings, peer, index);
    bucket::lemma_find_peer(nodes, peer);
    bucket::lemma_find_evictable(nodes);
    let k = bucket::find_peer(nodes, peer);
    if k < nodes.len() {
        assert(nodes[k].peer == peer);
    }
    let e = bucket::find_evictable(nodes);
    if e < nodes.len() {
        assert(bucket::evictable(nodes[e]));
    }
    assert(last is None);
    assert(views.len() == used.len());
}

/// A peer that the configuration names enters the routing table of a new node.
pub proof fn law_configured_peer_enters(
    settings: KademliaSettings,
    known: Seq<(PeerId, Vec<Multiaddr>)>,
    after: Seq<Seq<KademliaPeerView>>,
    index: int,
)
    requires
        known.len() == 1,
        known[0].1@.len() > 0,
        belongs_to(settings, known[0].0, index),
        node::known_peers_added(
            settings.local_key,
            Seq::new(256, |i: int| Seq::<KademliaPeerView>::empty()),
            node::bootstrap(known),
            after,
        ),
    ensures
        after.len() == 256,
        has_entered(
            Seq::empty(),
            known[0].0,
            address::address_views(known[0].1@),
            ConnectionType::NotConnected,
            after[index],
        ),
{
    let empty = Seq::new(256, |i: int| Seq::<KademliaPeerView>::empty());
    let peers = node::bootstrap(known);
    let middle = choose|middle: Seq<Seq<KademliaPeerView>>|
        {
            &&& node::known_peers_added(settings.local_key, empty, peers.drop_last(), middle)
            &&& #[trigger] routing_table::known_peer_added(
                settings.local_key,
                middle,
                peers.last().peer,
                peers.last().addresses,
                peers.last().connection,
                after,
            )
        };
    assert(peers.drop_last().len() == 0);
    assert(empty[index] =~= Seq::<KademliaPeerView>::empty());
    lemma_entered(
        settings,
        empty,
        known[0].0,
        address::address_views(known[0].1@),
        ConnectionType::NotConnected,
        after,
        index,
    );
}

} // verus!
