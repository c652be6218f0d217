//! How a search runs, from the command of the user to the last report.

use super::distance_map;
use super::flows;
use super::handle::{KademliaCommand, KademliaEvent, Quorum};
use super::node;
use super::node::{
    KademliaAction, KademliaInput, KademliaSettings, KademliaView, PeerActionView, QueryResult,
    Reached,
};
use super::query::candidates;
use super::query::candidates::PeersView;
use super::query::engine;
use super::query::engine::QueryView;
use super::query::{QueryAction, QueryId};
use super::record::{Record, RecordKey};
use super::routing_table;
use super::schema::Message;
use super::types;
use super::types::{Distance, KademliaPeer, KademliaPeerView};
use super::u256::U256;
use crate::address;
use crate::address::Multiaddr;
use crate::peer_id::PeerId;
use crate::protocol::TransportEvent;
use crate::time::Instant;
use crate::types::SubstreamId;
use vstd::prelude::*;

verus! {

/// Whether `peer` is a peer of the routing table, and none of them is closer to `place`.
pub open spec fn is_nearest(view: KademliaView, place: U256, peer: PeerId) -> bool {
    let all = routing_table::all_peers(view.buckets);
    exists|k: int|
        #![trigger all[k]]
        0 <= k < all.len() && all[k].peer == peer && forall|j: int|
            0 <= j < all.len() ==> types::xor_distance(place, all[k].key.bytes).value()
                <= types::xor_distance(place, (#[trigger] all[j]).key.bytes).value()
}

/// Whether the node can search at all: it knows a peer, and it may ask one.
pub open spec fn can_search(settings: KademliaSettings, view: KademliaView) -> bool {
    &&& routing_table::all_peers(view.buckets).len() > 0
    &&& settings.replication_factor > 0
    &&& settings.engine.replication_factor > 0
    &&& settings.engine.parallelism_factor > 0
}

/// Whether an active query does `action` next.
pub open spec fn goes_on(
    before: KademliaView,
    query: QueryId,
    action: QueryAction,
    after: KademliaView,
) -> bool {
    &&& engine::acted(before.queries, query, after.queries, action@)
    &&& after == (KademliaView { queries: after.queries, ..before })
}

/// Whether `message` asks for the peers closest to `key`.
pub open spec fn asks_for_peers(message: Message, key: Seq<u8>) -> bool {
    &&& message.message_type == 4
    &&& message.key@ == key
    &&& message.record is None
    &&& message.closer_peers@.len() == 0
}

/// Whether `message` asks for the record under `key`.
pub open spec fn asks_for_record(message: Message, key: Seq<u8>) -> bool {
    &&& message.message_type == 1
    &&& message.key@ == key
    &&& message.record is None
    &&& message.closer_peers@.len() == 0
}

proof fn lemma_candidates(target: U256, peers: Seq<KademliaPeer>)
    ensures
        ({
            let m = candidates::initial_candidates(target, peers);
            &&& forall|i: int|
                0 <= i < peers.len() ==> m.contains_key(
                    types::xor_distance(target, (#[trigger] peers[i]).key.bytes),
                )
            &&& forall|d: Distance| #[trigger]
                m.contains_key(d) ==> exists|i: int|
                    0 <= i < peers.len() && #[trigger] peers[i] == m[d] && d
                        == types::xor_distance(target, peers[i].key.bytes)
        }),
    decreases peers.len(),
{
    if peers.len() > 0 {
        let rest = peers.drop_last();
        lemma_candidates(target, rest);
        let m = candidates::initial_candidates(target, peers);
        let before = candidates::initial_candidates(target, rest);
        assert forall|i: int| 0 <= i < peers.len() implies m.contains_key(
            types::xor_distance(target, (#[trigger] peers[i]).key.bytes),
        ) by {
            if i < rest.len() {
                assert(rest[i] == peers[i]);
            }
        }
        assert forall|d: Distance| #[trigger] m.contains_key(d) implies exists|i: int|
            0 <= i < peers.len() && #[trigger] peers[i] == m[d] && d == types::xor_distance(
                target,
                peers[i].key.bytes,
            ) by {
            let last = peers.len() - 1;
            if d == types::xor_distance(target, peers[last].key.bytes) {
                assert(peers[last] == m[d]);
            } else {
                assert(before.contains_key(d));
                let i = choose|i: int|
                    0 <= i < rest.len() && #[trigger] rest[i] == before[d] && d
                        == types::xor_distance(target, rest[i].key.bytes);
                assert(peers[i] == m[d]);
            }
        }
    }
}

proof fn lemma_first_candidate(
    settings: KademliaSettings,
    view: KademliaView,
    target: U256,
    peers: Seq<KademliaPeer>,
)
    requires
        can_search(settings, view),
        node::closest_known(settings, view, target, peers),
    ensures
        ({
            let initial = engine::initial_peers(target, peers);
            &&& initial.candidates != Map::<Distance, KademliaPeer>::empty()
            &&& is_nearest(view, target, initial.next_peer().peer)
        }),
{
    let all = routing_table::all_peers(view.buckets);
    let views = types::peer_views(peers);
    let order = choose|order: Seq<KademliaPeerView>| #[trigger]
        routing_table::ranks(all, target, order) && views == order.take(
            if settings.replication_factor < order.len() {
                settings.replication_factor as int
            } else {
                order.len() as int
            },
        );
    broadcast use vstd::seq_lib::group_to_multiset_ensures;

    assert(order.len() == order.to_multiset().len());
    assert(all.len() == all.to_multiset().len());
    assert(order.len() == all.len());
    assert(views.len() > 0);
    assert(views[0] == order[0]);
    assert(views[0] == peers[0]@);
    let m = candidates::initial_candidates(target, peers);
    lemma_candidates(target, peers);
    let first = types::xor_distance(target, peers[0].key.bytes);
    assert(m.contains_key(first));
    assert forall|d: Distance| #[trigger] m.contains_key(d) implies first.value() <= d.value() by {
        let i = choose|i: int|
            0 <= i < peers.len() && #[trigger] peers[i] == m[d] && d == types::xor_distance(
                target,
                peers[i].key.bytes,
            );
        assert(views[i] == order[i]);
        assert(views[i] == peers[i]@);
        if i > 0 {
            assert(routing_table::distance_to(target, order[0]) <= routing_table::distance_to(
                target,
                order[i],
            ));
        }
    }
    assert(distance_map::is_least(m, first));
    distance_map::lemma_extremes_unique(m, first);
    let i = choose|i: int|
        0 <= i < peers.len() && #[trigger] peers[i] == m[first] && first == types::xor_distance(
            target,
            peers[i].key.bytes,
        );
    assert(views[i] == order[i]);
    assert(views[i] == peers[i]@);
    let chosen = order[i];
    assert(order.to_multiset().contains(chosen));
    assert(all.to_multiset().contains(chosen));
    let k = choose|k: int| 0 <= k < all.len() && all[k] == chosen;
    assert forall|j: int| 0 <= j < all.len() implies types::xor_distance(
        target,
        all[k].key.bytes,
    ).value() <= types::xor_distance(target, (#[trigger] all[j]).key.bytes).value() by {
        assert(all.to_multiset().contains(all[j]));
        assert(order.to_multiset().contains(all[j]));
        let p = choose|p: int| 0 <= p < order.len() && order[p] == all[j];
        if p > 0 {
            assert(routing_table::distance_to(target, order[0]) <= routing_table::distance_to(
                target,
                order[p],
            ));
        }
    }
}

proof fn lemma_empty_pending()
    ensures
        Map::<PeerId, KademliaPeer>::empty().len() == 0,
        Map::<Distance, KademliaPeer>::empty().len() == 0,
{
}

proof fn lemma_peers_on_wire(message: Message)
    ensures
        message@.closer_peers.len() == message.closer_peers@.len(),
{
}

/// A search for a peer starts with the known peer that is closest to it: that one is asked for the
/// peers closest to the target.
pub proof fn law_find_node_starts<S>(
    settings: KademliaSettings,
    before: KademliaView,
    target: PeerId,
    query: QueryId,
    opened: Seq<Option<SubstreamId>>,
    now: Instant,
    started: KademliaView,
    none: Vec<KademliaAction<S>>,
    action: QueryAction,
    after: KademliaView,
)
    requires
        can_search(settings, before),
        flows::leads(
            settings,
            before,
            KademliaInput::Command(KademliaCommand::FindNode { peer: target, query_id: query }),
            opened,
            now,
            started,
            none,
        ),
        goes_on(started, query, action, after),
    ensures
        none@.len() == 0,
        started.queries.contains_key(query),
        started.queries[query] matches QueryView::FindNode { config, .. } && config.query == query
            && config.local_peer_id == settings.engine.local_peer_id && config.replication_factor
            == settings.engine.replication_factor && config.parallelism_factor
            == settings.engine.parallelism_factor && config.target.preimage == target
            && config.target.bytes == types::place_of(target.spec_bytes()),
        action matches QueryAction::SendMessage { query: q, peer, message } && q == query
            && is_nearest(before, types::place_of(target.spec_bytes()), peer) && asks_for_peers(
            message,
            target.spec_bytes(),
        ),
        after.store == before.store,
        after.buckets == before.buckets,
        after.peers == before.peers,
{
    let place = types::place_of(target.spec_bytes());
    let peers = choose|peers: Seq<KademliaPeer>|
        {
            &&& #[trigger] node::closest_known(settings, before, place, peers)
            &&& started == (KademliaView {
                queries: before.queries.insert(
                    query,
                    engine::find_node_query(settings.engine, query, target, peers),
                ),
                ..before
            })
        };
    lemma_first_candidate(settings, before, place, peers);
    lemma_empty_pending();
    assert(node::node_actions(none@).len() == none@.len());
    if action is SendMessage {
        lemma_peers_on_wire(action->SendMessage_message);
    }
}

/// A record that is put is kept in the local store, and the known peer that is closest to its key
/// is asked for those that are closer still.
pub proof fn law_put_record_starts<S>(
    settings: KademliaSettings,
    before: KademliaView,
    record: Record,
    query: QueryId,
    opened: Seq<Option<SubstreamId>>,
    now: Instant,
    started: KademliaView,
    none: Vec<KademliaAction<S>>,
    action: QueryAction,
    after: KademliaView,
)
    requires
        can_search(settings, before),
        flows::leads(
            settings,
            before,
            KademliaInput::Command(KademliaCommand::PutRecord { record, query_id: query }),
            opened,
            now,
            started,
            none,
        ),
        goes_on(started, query, action, after),
    ensures
        none@.len() == 0,
        started.queries.contains_key(query),
        started.queries[query] matches QueryView::PutRecord { record: r, config, .. } && r@
            == record@
            && config.query == query && config.local_peer_id == settings.engine.local_peer_id
            && config.replication_factor == settings.engine.replication_factor
            && config.parallelism_factor == settings.engine.parallelism_factor
            && config.target.preimage@ == record.key@
            && config.target.bytes == types::place_of(record.key@),
        action matches QueryAction::SendMessage { query: q, peer, message } && q == query
            && is_nearest(before, types::place_of(record.key@), peer) && asks_for_peers(
            message,
            record.key@,
        ),
        before.store.takes(settings.store, record@) ==> after.store.records
            == before.store.records.insert(record.key@, record@),
        after.buckets == before.buckets,
        after.peers == before.peers,
{
    let place = types::place_of(record.key@);
    let peers = choose|peers: Seq<KademliaPeer>|
        {
            &&& #[trigger] node::closest_known(settings, before, place, peers)
            &&& engine::put_record_query(
                settings.engine,
                query,
                record,
                peers,
                started.queries[query],
            )
        };
    lemma_first_candidate(settings, before, place, peers);
    lemma_empty_pending();
    assert(node::node_actions(none@).len() == none@.len());
    if action is SendMessage {
        lemma_peers_on_wire(action->SendMessage_message);
    }
}

/// A record that the local store does not have is searched for, starting with the known peer that
/// is closest to its key.
pub proof fn law_get_record_starts<S>(
    settings: KademliaSettings,
    before: KademliaView,
    key: RecordKey,
    quorum: Quorum,
    query: QueryId,
    opened: Seq<Option<SubstreamId>>,
    now: Instant,
    started: KademliaView,
    none: Vec<KademliaAction<S>>,
    action: QueryAction,
    after: KademliaView,
)
    requires
        can_search(settings, before),
        !before.store.records.contains_key(key@),
        quorum matches Quorum::N(needed) ==> needed.spec_get() > 0,
        flows::leads(
            settings,
            before,
            KademliaInput::Command(KademliaCommand::GetRecord { key, quorum, query_id: query }),
            opened,
            now,
            started,
            none,
        ),
        goes_on(started, query, action, after),
    ensures
        none@.len() == 0,
        started.queries.contains_key(query),
        started.queries[query] matches QueryView::GetRecord { config, .. } && config.query == query
            && config.local_peer_id == settings.engine.local_peer_id && config.replication_factor
            == settings.engine.replication_factor && config.parallelism_factor
            == settings.engine.parallelism_factor && config.known_records == 0 && config.quorum
            == quorum && config.target.preimage@ == key@
            && config.target.bytes == types::place_of(key@),
        action matches QueryAction::SendMessage { query: q, peer, message } && q == query
            && is_nearest(before, types::place_of(key@), peer) && asks_for_record(message, key@),
        after.store == before.store,
        after.buckets == before.buckets,
        after.peers == before.peers,
{
    let place = types::place_of(key@);
    let peers = choose|peers: Seq<KademliaPeer>|
        {
            &&& #[trigger] node::closest_known(settings, before, place, peers)
            &&& engine::get_record_query(
                settings.engine,
                query,
                key@,
                peers,
                quorum,
                0,
                started.queries[query],
            )
        };
    lemma_first_candidate(settings, before, place, peers);
    lemma_empty_pending();
    assert(node::node_actions(none@).len() == none@.len());
    if action is SendMessage {
        lemma_peers_on_wire(action->SendMessage_message);
    }
}

/// Whether a query bears the number that it is filed under.
pub open spec fn bears_number(view: QueryView, query: QueryId) -> bool {
    match view {
        QueryView::FindNode { config, .. } => config.query == query,
        QueryView::PutRecord { config, .. } => config.query == query,
        QueryView::PutRecordToPeers { .. } => true,
        QueryView::GetRecord { config, .. } => config.query == query,
    }
}

/// Whether nothing is done but to send `message` to `peer` over `substream` and to read the answer
/// to `query`.
pub open spec fn sends_request<S>(
    actions: Seq<KademliaAction<S>>,
    peer: PeerId,
    query: QueryId,
    message: Message,
    substream: S,
) -> bool {
    &&& actions.len() == 1
    &&& actions[0] matches KademliaAction::SendRequest {
        peer: p,
        query: q,
        message: m,
        substream: s,
    } && p == peer && q == query && m@ == message@ && s == substream
}

/// Whether a query has a question to `peer` that is not answered yet.
pub open spec fn is_asking(view: KademliaView, query: QueryId, peer: PeerId) -> bool {
    &&& view.queries.contains_key(query)
    &&& match view.queries[query] {
        QueryView::FindNode { state, .. } => state.peers.pending.contains_key(peer),
        QueryView::PutRecord { state, .. } => state.peers.pending.contains_key(peer),
        QueryView::PutRecordToPeers { .. } => false,
        QueryView::GetRecord { state, .. } => state.peers.pending.contains_key(peer),
    }
}

/// A query that asks a peer waits for it, and when a substream to the peer has opened, it is that
/// question that is sent over it.
pub proof fn law_question_sent<S>(
    settings: KademliaSettings,
    before: KademliaView,
    query: QueryId,
    peer: PeerId,
    message: Message,
    asking: KademliaView,
    id: SubstreamId,
    middle: KademliaView,
    first: Seq<KademliaAction<S>>,
    event: TransportEvent<S>,
    substream: S,
    opened: Seq<Option<SubstreamId>>,
    now: Instant,
    after: KademliaView,
    actions: Vec<KademliaAction<S>>,
)
    requires
        before.queries.contains_key(query) && bears_number(before.queries[query], query),
        goes_on(before, query, QueryAction::SendMessage { query, peer, message }, asking),
        flows::acts(
            settings,
            asking,
            QueryAction::SendMessage { query, peer, message },
            seq![Reached::Substream(id)],
            middle,
            first,
        ),
        flows::substream_opened(event, peer, id, substream),
        flows::leads(
            settings,
            middle,
            KademliaInput::Transport(event),
            opened,
            now,
            after,
            actions,
        ),
    ensures
        is_asking(asking, query, peer),
        first.len() == 0,
        middle.pending_substreams.contains_key(id) && middle.pending_substreams[id] == peer,
        !after.pending_substreams.contains_key(id),
        sends_request(actions@, peer, query, message, substream),
        is_asking(after, query, peer),
{
    assert(node::node_actions(first).len() == first.len());
    assert(node::node_actions(actions@).len() == actions@.len());
    assert(node::node_actions(actions@)[0] == actions@[0]@);
}

proof fn lemma_all_opened(actions: Seq<PeerActionView>, opened: Seq<Option<SubstreamId>>)
    requires
        opened.len() >= actions.len(),
        forall|j: int| 0 <= j < opened.len() ==> (#[trigger] opened[j]) is Some,
    ensures
        node::unopened_queries(actions, opened) == Set::<QueryId>::empty(),
    decreases actions.len(),
{
    if actions.len() > 0 {
        assert(opened[actions.len() - 1] is Some);
        lemma_all_opened(actions.drop_last(), opened);
    }
}

/// The actions that wait for a connection to `peer`.
pub open spec fn waiting_for(view: KademliaView, peer: PeerId) -> nat {
    if view.pending_dials.contains_key(peer) {
        view.pending_dials[peer].len()
    } else {
        0
    }
}

/// A peer that had to be dialed is asked too: once the connection is there and a substream to it
/// has opened, the question is sent over it.
pub proof fn law_question_sent_to_dialed_peer<S>(
    settings: KademliaSettings,
    before: KademliaView,
    query: QueryId,
    peer: PeerId,
    message: Message,
    asking: KademliaView,
    dialing: KademliaView,
    first: Seq<KademliaAction<S>>,
    connection: TransportEvent<S>,
    opened: Seq<Option<SubstreamId>>,
    id: SubstreamId,
    connected_at: Instant,
    connected: KademliaView,
    second: Vec<KademliaAction<S>>,
    event: TransportEvent<S>,
    substream: S,
    now: Instant,
    after: KademliaView,
    actions: Vec<KademliaAction<S>>,
)
    requires
        before.queries.contains_key(query) && bears_number(before.queries[query], query),
        !before.peers.contains_key(peer),
        goes_on(before, query, QueryAction::SendMessage { query, peer, message }, asking),
        flows::acts(
            settings,
            asking,
            QueryAction::SendMessage { query, peer, message },
            seq![Reached::Dialing],
            dialing,
            first,
        ),
        connection matches TransportEvent::ConnectionEstablished { peer: p, .. } && p == peer,
        opened.len() == waiting_for(before, peer) + 1,
        forall|j: int| 0 <= j < opened.len() ==> (#[trigger] opened[j]) is Some,
        opened.last() == Some(id),
        flows::leads(
            settings,
            dialing,
            KademliaInput::Transport(connection),
            opened,
            connected_at,
            connected,
            second,
        ),
        flows::substream_opened(event, peer, id, substream),
        flows::leads(
            settings,
            connected,
            KademliaInput::Transport(event),
            Seq::empty(),
            now,
            after,
            actions,
        ),
    ensures
        first.len() == 0,
        second@.len() == 0,
        sends_request(actions@, peer, query, message, substream),
        is_asking(after, query, peer),
{
    assert(node::node_actions(first).len() == first.len());
    assert(node::node_actions(second@).len() == second@.len());
    assert(node::node_actions(actions@).len() == actions@.len());
    let waiting = dialing.pending_dials[peer];
    assert(waiting.last() == PeerActionView::SendFindNode(query));
    lemma_all_opened(waiting, opened);
    assert(connected.peers[peer] == node::opened_actions(waiting, opened));
    assert(node::node_actions(actions@)[0] == actions@[0]@);
}

/// A peer that cannot be reached is lost to the query that was to ask it, which does not wait for
/// it any more; nothing else changes.
pub proof fn law_unreachable_peer_given_up<S>(
    settings: KademliaSettings,
    before: KademliaView,
    query: QueryId,
    peer: PeerId,
    message: Message,
    after: KademliaView,
    actions: Seq<KademliaAction<S>>,
    other: QueryId,
)
    requires
        flows::acts(
            settings,
            before,
            QueryAction::SendMessage { query, peer, message },
            seq![Reached::Unreachable],
            after,
            actions,
        ),
    ensures
        actions.len() == 0,
        !is_asking(after, query, peer),
        before.queries.contains_key(query) ==> after.queries.contains_key(query),
        other != query && before.queries.contains_key(other) ==> after.queries.contains_key(other)
            && after.queries[other] == before.queries[other],
        after == (KademliaView { queries: after.queries, ..before }),
{
    assert(node::node_actions(actions).len() == actions.len());
}

/// A failed dial is lost to every query that waits for it: none of them waits for the peer any
/// more, and nothing is pending on the dial.
pub proof fn law_failed_dial_given_up<S>(
    settings: KademliaSettings,
    before: KademliaView,
    event: TransportEvent<S>,
    peer: PeerId,
    opened: Seq<Option<SubstreamId>>,
    now: Instant,
    after: KademliaView,
    actions: Vec<KademliaAction<S>>,
    query: QueryId,
)
    requires
        event matches TransportEvent::DialFailure { peer: p, .. } && p == peer,
        flows::leads(
            settings,
            before,
            KademliaInput::Transport(event),
            opened,
            now,
            after,
            actions,
        ),
        before.pending_dials.contains_key(peer),
    ensures
        actions@.len() == 0,
        !after.pending_dials.contains_key(peer),
        before.pending_dials[peer].contains(PeerActionView::SendFindNode(query)) ==> !is_asking(
            after,
            query,
            peer,
        ),
        !before.pending_dials[peer].contains(PeerActionView::SendFindNode(query))
            && before.queries.contains_key(query) ==> after.queries.contains_key(query)
            && after.queries[query] == before.queries[query],
        after.queries.dom() =~= before.queries.dom(),
        after.peers == before.peers,
        after.store == before.store,
        after.buckets == before.buckets,
{
    assert(node::node_actions(actions@).len() == actions@.len());
}

/// A question that times out, or whose substream is closed, is lost to its query, and the peer
/// does not count as connected any more.
pub proof fn law_lost_question_given_up<S>(
    settings: KademliaSettings,
    before: KademliaView,
    peer: PeerId,
    query: QueryId,
    result: QueryResult<S>,
    opened: Seq<Option<SubstreamId>>,
    now: Instant,
    after: KademliaView,
    actions: Vec<KademliaAction<S>>,
)
    requires
        result is Timeout || result is SubstreamClosed,
        flows::leads(
            settings,
            before,
            KademliaInput::Executor { peer, query_id: Some(query), result },
            opened,
            now,
            after,
            actions,
        ),
    ensures
        actions@.len() == 0,
        !is_asking(after, query, peer),
        !after.peers.contains_key(peer),
        after.peers == before.peers.remove(peer),
        after.queries.dom() =~= before.queries.dom(),
        after.store == before.store,
{
    assert(node::node_actions(actions@).len() == actions@.len());
}

/// A closed connection is lost to all queries that had something pending with the peer.
pub proof fn law_lost_connection_given_up<S>(
    settings: KademliaSettings,
    before: KademliaView,
    peer: PeerId,
    opened: Seq<Option<SubstreamId>>,
    now: Instant,
    after: KademliaView,
    actions: Vec<KademliaAction<S>>,
    id: SubstreamId,
    query: QueryId,
)
    requires
        before.peers.contains_key(peer),
        before.peers[peer].contains_key(id),
        before.peers[peer][id] == PeerActionView::SendFindNode(query),
        flows::leads(
            settings,
            before,
            KademliaInput::Transport(TransportEvent::ConnectionClosed { peer }),
            opened,
            now,
            after,
            actions,
        ),
    ensures
        actions@.len() == 0,
        !is_asking(after, query, peer),
        after.peers == before.peers.remove(peer),
        after.queries.dom() =~= before.queries.dom(),
        after.store == before.store,
{
    assert(node::node_actions(actions@).len() == actions@.len());
    assert(node::queries_of(before.peers[peer]).contains(query));
}

/// A substream that cannot be opened is lost to the query that it was for.
pub proof fn law_unopened_substream_given_up<S>(
    settings: KademliaSettings,
    before: KademliaView,
    id: SubstreamId,
    peer: PeerId,
    query: QueryId,
    event: TransportEvent<S>,
    opened: Seq<Option<SubstreamId>>,
    now: Instant,
    after: KademliaView,
    actions: Vec<KademliaAction<S>>,
)
    requires
        before.pending_substreams.contains_key(id),
        before.pending_substreams[id] == peer,
        before.peers.contains_key(peer),
        before.peers[peer].contains_key(id),
        before.peers[peer][id] == PeerActionView::SendFindNode(query),
        event matches TransportEvent::SubstreamOpenFailure { substream, .. } && substream == id,
        flows::leads(
            settings,
            before,
            KademliaInput::Transport(event),
            opened,
            now,
            after,
            actions,
        ),
    ensures
        actions@.len() == 0,
        !is_asking(after, query, peer),
        !after.pending_substreams.contains_key(id),
        !after.peers.contains_key(peer),
        after.queries.dom() =~= before.queries.dom(),
        after.store == before.store,
{
    assert(node::node_actions(actions@).len() == actions@.len());
}

/// Whether `list` names exactly the peers of `responses`, with their addresses: those at the
/// distances `keys`, from the closest on.
pub open spec fn names_in_order(
    list: Seq<(PeerId, Vec<Multiaddr>)>,
    responses: Map<Distance, KademliaPeer>,
    keys: Seq<Distance>,
) -> bool {
    &&& keys.len() == list.len()
    &&& forall|i: int, j: int|
        0 <= i < j < keys.len() ==> (#[trigger] keys[i]).value() < (#[trigger] keys[j]).value()
    &&& forall|d: Distance| #[trigger] responses.contains_key(d) ==> keys.contains(d)
    &&& forall|i: int|
        0 <= i < list.len() ==> responses.contains_key(#[trigger] keys[i]) && list[i].0
            == responses[keys[i]].peer && address::address_views(list[i].1@)
            == address::address_views(responses[keys[i]].addresses@)
}

/// Whether `list` names exactly the peers of `responses`, with their addresses, from the closest
/// on.
pub open spec fn names_responses(
    list: Seq<(PeerId, Vec<Multiaddr>)>,
    responses: Map<Distance, KademliaPeer>,
) -> bool {
    exists|keys: Seq<Distance>| #[trigger] names_in_order(list, responses, keys)
}

/// A search for a peer that has asked everybody and was answered ends with one report, of all that
/// have answered.
pub proof fn law_find_node_reported<S>(
    settings: KademliaSettings,
    before: KademliaView,
    query: QueryId,
    action: QueryAction,
    middle: KademliaView,
    outcomes: Seq<Reached>,
    after: KademliaView,
    actions: Seq<KademliaAction<S>>,
)
    requires
        before.queries.contains_key(query),
        before.queries[query] matches QueryView::FindNode { state, .. } && state.peers.pending
            == Map::<PeerId, KademliaPeer>::empty() && state.peers.candidates
            == Map::<Distance, KademliaPeer>::empty() && state.responses
            != Map::<Distance, KademliaPeer>::empty(),
        goes_on(before, query, action, middle),
        flows::acts(settings, middle, action, outcomes, after, actions),
    ensures
        !after.queries.contains_key(query),
        actions.len() == 1,
        actions[0] matches KademliaAction::Report(
            KademliaEvent::FindNodeSuccess { query_id, target, peers },
        ) && query_id == query && target
            == before.queries[query]->FindNode_config.target.preimage && names_responses(
            peers@,
            before.queries[query]->FindNode_state.responses,
        ),
{
    let responses = before.queries[query]->FindNode_state.responses;
    assert(node::node_actions(actions).len() == actions.len());
    assert(node::node_actions(actions)[0] == actions[0]@);
    assert(action is FindNodeQuerySucceeded);
    let found = action->FindNodeQuerySucceeded_peers@;
    let event = actions[0]->Report_0;
    let list = event->FindNodeSuccess_peers@;
    let shown = event@->FindNodeSuccess_peers;
    assert(shown == node::found_addresses(found));
    assert(shown.len() == list.len());
    assert forall|i: int| #![trigger list[i]] 0 <= i < list.len() implies list[i].0 == found[i].peer
        && address::address_views(list[i].1@) == address::address_views(
        found[i].addresses@,
    ) by {
        assert(shown[i] == (list[i].0, address::address_views(list[i].1@)));
    }
    let keys = choose|keys: Seq<Distance>| distance_map::ascending_keys(responses, found, keys);
    assert(distance_map::ascending_keys(responses, found, keys));
    assert(names_in_order(list, responses, keys));
}

proof fn lemma_values(
    responses: Map<Distance, KademliaPeer>,
    found: Seq<KademliaPeer>,
    keys: Seq<Distance>,
)
    requires
        distance_map::ascending_keys(responses, found, keys),
    ensures
        found.len() == keys.len(),
        forall|i: int|
            0 <= i < keys.len() ==> responses.contains_key(#[trigger] keys[i])
                && responses[keys[i]] == found[i],
        forall|d: Distance| #[trigger]
            responses.contains_key(d) ==> exists|i: int|
                0 <= i < found.len() && found[i] == responses[d],
{
}

/// A record whose search has asked everybody and was answered goes to all that have answered, and
/// to nobody else.
pub proof fn law_record_put_to_responders(
    before: KademliaView,
    query: QueryId,
    action: QueryAction,
    after: KademliaView,
)
    requires
        before.queries.contains_key(query),
        before.queries[query] matches QueryView::PutRecord { state, .. } && state.peers.pending
            == Map::<PeerId, KademliaPeer>::empty() && state.peers.candidates
            == Map::<Distance, KademliaPeer>::empty() && state.responses
            != Map::<Distance, KademliaPeer>::empty(),
        goes_on(before, query, action, after),
    ensures
        !after.queries.contains_key(query),
        action matches QueryAction::PutRecordToFoundNodes { record, peers } && record
            == before.queries[query]->PutRecord_record && forall|p: KademliaPeer|
            #![trigger peers@.contains(p)]
            peers@.contains(p) <==> exists|d: Distance| #[trigger]
                before.queries[query]->PutRecord_state.responses.contains_key(d)
                    && before.queries[query]->PutRecord_state.responses[d] == p,
{
    let responses = before.queries[query]->PutRecord_state.responses;
    assert(action is PutRecordToFoundNodes);
    let found = action->PutRecordToFoundNodes_peers@;
    let keys = choose|keys: Seq<Distance>| distance_map::ascending_keys(responses, found, keys);
    assert(distance_map::ascending_keys(responses, found, keys));
    lemma_values(responses, found, keys);
    assert forall|p: KademliaPeer| #![trigger found.contains(p)] found.contains(p) <==> exists|
        d: Distance,
    | #[trigger]
        responses.contains_key(d) && responses[d] == p by {
        if found.contains(p) {
            let i = choose|i: int| 0 <= i < found.len() && found[i] == p;
            assert(responses.contains_key(keys[i]));
        }
        if exists|d: Distance| #[trigger] responses.contains_key(d) && responses[d] == p {
            let d = choose|d: Distance| #[trigger] responses.contains_key(d) && responses[d] == p;
            let i = choose|i: int| 0 <= i < found.len() && found[i] == responses[d];
            assert(found[i] == p);
        }
    }
}

/// A record that is put to given peers goes to those of them that were found, at once.
pub proof fn law_record_put_to_given_peers(
    before: KademliaView,
    query: QueryId,
    action: QueryAction,
    after: KademliaView,
)
    requires
        before.queries.contains_key(query),
        before.queries[query] is PutRecordToPeers,
        goes_on(before, query, action, after),
    ensures
        !after.queries.contains_key(query),
        action matches QueryAction::PutRecordToFoundNodes { record, peers } && record
            == before.queries[query]->PutRecordToPeers_record && peers@
            == before.queries[query]->PutRecordToPeers_peers,
{
}

/// A search for a record that has found some and ends, because enough have been found or because
/// nobody is left to ask, reports one event for it: the records that were found, each with the
/// peers that have sent it.
pub proof fn law_get_record_reported<S>(
    settings: KademliaSettings,
    before: KademliaView,
    query: QueryId,
    action: QueryAction,
    middle: KademliaView,
    outcomes: Seq<Reached>,
    after: KademliaView,
    actions: Seq<KademliaAction<S>>,
)
    requires
        before.queries.contains_key(query),
        before.queries[query] matches QueryView::GetRecord { state, .. } && state.found.len() > 0,
        goes_on(before, query, action, middle),
        !middle.queries.contains_key(query),
        flows::acts(settings, middle, action, outcomes, after, actions),
    ensures
        actions.len() == 1,
        actions[0] matches KademliaAction::Report(event) && flows::reports_records(
            event,
            query,
            before.queries[query]->GetRecord_state.found,
        ),
{
    assert(action is GetRecordQueryDone);
    flows::law_found_records_reported(
        settings,
        middle,
        query,
        action->GetRecordQueryDone_records,
        outcomes,
        after,
        actions,
    );
}

/// A query that fails has nobody left to ask or to wait for and has found nothing, and one that
/// fails is over.
pub proof fn law_failed_query_found_nothing(
    before: KademliaView,
    query: QueryId,
    failed: QueryId,
    after: KademliaView,
)
    requires
        goes_on(before, query, QueryAction::QueryFailed { query: failed }, after),
    ensures
        failed == query,
        !after.queries.contains_key(query),
        match before.queries[query] {
            QueryView::FindNode { state, .. } => state.peers.pending == Map::<
                PeerId,
                KademliaPeer,
            >::empty() && state.peers.candidates == Map::<Distance, KademliaPeer>::empty()
                && state.responses == Map::<Distance, KademliaPeer>::empty(),
            QueryView::PutRecord { state, .. } => state.peers.pending == Map::<
                PeerId,
                KademliaPeer,
            >::empty() && state.peers.candidates == Map::<Distance, KademliaPeer>::empty()
                && state.responses == Map::<Distance, KademliaPeer>::empty(),
            QueryView::PutRecordToPeers { .. } => false,
            QueryView::GetRecord { config, state } => state.peers.pending == Map::<
                PeerId,
                KademliaPeer,
            >::empty() && state.peers.candidates == Map::<Distance, KademliaPeer>::empty()
                && state.found.len() == 0 && config.known_records == 0,
        },
{
}

/// A peer that had to be dialed, and to which no substream can be opened once the connection is
/// there, is lost to the query that was to ask it.
pub proof fn law_unopened_question_given_up<S>(
    settings: KademliaSettings,
    before: KademliaView,
    query: QueryId,
    peer: PeerId,
    message: Message,
    dialing: KademliaView,
    first: Seq<KademliaAction<S>>,
    connection: TransportEvent<S>,
    opened: Seq<Option<SubstreamId>>,
    now: Instant,
    after: KademliaView,
    actions: Vec<KademliaAction<S>>,
)
    requires
        !before.peers.contains_key(peer),
        flows::acts(
            settings,
            before,
            QueryAction::SendMessage { query, peer, message },
            seq![Reached::Dialing],
            dialing,
            first,
        ),
        connection matches TransportEvent::ConnectionEstablished { peer: p, .. } && p == peer,
        opened.len() == waiting_for(before, peer) + 1,
        opened.last() is None,
        flows::leads(
            settings,
            dialing,
            KademliaInput::Transport(connection),
            opened,
            now,
            after,
            actions,
        ),
    ensures
        actions@.len() == 0,
        !is_asking(after, query, peer),
        after.queries.dom() =~= before.queries.dom(),
{
    assert(node::node_actions(actions@).len() == actions@.len());
    let waiting = dialing.pending_dials[peer];
    assert(waiting.last() == PeerActionView::SendFindNode(query));
    assert(node::unopened_queries(waiting, opened).contains(query));
}

/// Whether the known peers that are closest to `place`, as many as the replication factor says, are
/// those that a query can ask.
pub open spec fn can_ask_closest(
    settings: KademliaSettings,
    view: KademliaView,
    place: U256,
    peers: PeersView,
) -> bool {
    exists|closest: Seq<KademliaPeerView>|
        {
            &&& #[trigger] routing_table::is_closest(
                routing_table::all_peers(view.buckets),
                place,
                settings.replication_factor as nat,
                closest,
            )
            &&& forall|i: int|
                0 <= i < closest.len() ==> peers.candidates.contains_key(
                    types::xor_distance(place, (#[trigger] closest[i]).key.bytes),
                )
            &&& forall|d: Distance| #[trigger]
                peers.candidates.contains_key(d) ==> exists|i: int|
                    0 <= i < closest.len() && (#[trigger] closest[i]).peer == peers.candidates[d].peer
                        && d == types::xor_distance(place, closest[i].key.bytes)
        }
}

proof fn lemma_can_ask_closest(
    settings: KademliaSettings,
    view: KademliaView,
    place: U256,
    peers: Seq<KademliaPeer>,
)
    requires
        node::closest_known(settings, view, place, peers),
    ensures
        can_ask_closest(settings, view, place, engine::initial_peers(place, peers)),
{
    let closest = types::peer_views(peers);
    let m = candidates::initial_candidates(place, peers);
    lemma_candidates(place, peers);
    assert forall|i: int| 0 <= i < closest.len() implies m.contains_key(
        types::xor_distance(place, (#[trigger] closest[i]).key.bytes),
    ) by {
        assert(closest[i] == peers[i]@);
    }
    assert forall|d: Distance| #[trigger] m.contains_key(d) implies exists|i: int|
        0 <= i < closest.len() && (#[trigger] closest[i]).peer == m[d].peer && d
            == types::xor_distance(place, closest[i].key.bytes) by {
        let i = choose|i: int|
            0 <= i < peers.len() && #[trigger] peers[i] == m[d] && d == types::xor_distance(
                place,
                peers[i].key.bytes,
            );
        assert(closest[i] == peers[i]@);
    }
}

/// Every search can ask the known peers that are closest to what it is for, as many as the
/// replication factor says, and nobody else as yet.
pub proof fn law_closest_peers_to_ask<S>(
    settings: KademliaSettings,
    before: KademliaView,
    command: KademliaCommand,
    opened: Seq<Option<SubstreamId>>,
    now: Instant,
    after: KademliaView,
    actions: Vec<KademliaAction<S>>,
)
    requires
        flows::leads(
            settings,
            before,
            KademliaInput::Command(command),
            opened,
            now,
            after,
            actions,
        ),
        command matches KademliaCommand::GetRecord { key, .. }
            ==> !before.store.records.contains_key(key@),
    ensures
        match command {
            KademliaCommand::FindNode { peer, query_id } => after.queries[query_id]
                matches QueryView::FindNode { state, .. } && can_ask_closest(
                settings,
                before,
                types::place_of(peer.spec_bytes()),
                state.peers,
            ) && state.responses =~= Map::<Distance, KademliaPeer>::empty(),
            KademliaCommand::PutRecord { record, query_id } => after.queries[query_id]
                matches QueryView::PutRecord { state, .. } && can_ask_closest(
                settings,
                before,
                types::place_of(record.key@),
                state.peers,
            ) && state.responses =~= Map::<Distance, KademliaPeer>::empty(),
            KademliaCommand::GetRecord { key, query_id, .. } => after.queries[query_id]
                matches QueryView::GetRecord { state, .. } && can_ask_closest(
                settings,
                before,
                types::place_of(key@),
                state.peers,
            ) && state.found.len() == 0,
            _ => true,
        },
{
    match command {
        KademliaCommand::FindNode { peer, query_id } => {
            let place = types::place_of(peer.spec_bytes());
            let peers = choose|peers: Seq<KademliaPeer>|
                {
                    &&& #[trigger] node::closest_known(settings, before, place, peers)
                    &&& after == (KademliaView {
                        queries: before.queries.insert(
                            query_id,
                            engine::find_node_query(settings.engine, query_id, peer, peers),
                        ),
                        ..before
                    })
                };
            lemma_can_ask_closest(settings, before, place, peers);
        },
        KademliaCommand::PutRecord { record, query_id } => {
            let place = types::place_of(record.key@);
            let peers = choose|peers: Seq<KademliaPeer>|
                {
                    &&& #[trigger] node::closest_known(settings, before, place, peers)
                    &&& engine::put_record_query(
                        settings.engine,
                        query_id,
                        record,
                        peers,
                        after.queries[query_id],
                    )
                };
            lemma_can_ask_closest(settings, before, place, peers);
        },
        KademliaCommand::GetRecord { key, quorum, query_id } => {
            let place = types::place_of(key@);
            let peers = choose|peers: Seq<KademliaPeer>|
                {
                    &&& #[trigger] node::closest_known(settings, before, place, peers)
                    &&& engine::get_record_query(
                        settings.engine,
                        query_id,
                        key@,
                        peers,
                        quorum,
                        0,
                        after.queries[query_id],
                    )
                };
            lemma_can_ask_closest(settings, before, place, peers);
        },
        _ => {},
    }
}

} // verus!
