//! How queries run: what a node sends, keeps and reports from the first step to the last.

use super::handle;
use super::handle::{KademliaEvent, RecordsType};
use super::message;
use super::node;
use super::node::{
    KademliaAction, KademliaInput, KademliaSettings, KademliaView, PeerActionView, Reached,
};
use super::query::{QueryAction, QueryId};
use super::record::{PeerRecord, Record, RecordView};
use super::schema::Message;
use super::types::KademliaPeer;
use crate::error::Error;
use crate::peer_id::PeerId;
use crate::protocol::{Direction, TransportEvent};
use crate::time::Instant;
use crate::types::SubstreamId;
use vstd::prelude::*;

verus! {

/// Whether an action of the queries takes the node from `before` to `after` with `actions`.
pub open spec fn acts<S>(
    settings: KademliaSettings,
    before: KademliaView,
    action: QueryAction,
    outcomes: Seq<Reached>,
    after: KademliaView,
    actions: Seq<KademliaAction<S>>,
) -> bool {
    (after, node::node_actions(actions)) == node::query_action_handled::<S>(
        settings,
        before,
        action@,
        outcomes,
    )
}

/// Whether an input takes the node from `before` to `after` with `actions`.
pub open spec fn leads<S>(
    settings: KademliaSettings,
    before: KademliaView,
    input: KademliaInput<S>,
    opened: Seq<Option<SubstreamId>>,
    now: Instant,
    after: KademliaView,
    actions: Vec<KademliaAction<S>>,
) -> bool {
    node::input_handled(
        settings,
        before,
        input,
        opened,
        now,
        after,
        Ok::<Vec<KademliaAction<S>>, Error>(actions),
    )
}

/// Whether `event` says that the outbound substream `id` to `peer` is open.
pub open spec fn substream_opened<S>(
    event: TransportEvent<S>,
    peer: PeerId,
    id: SubstreamId,
    substream: S,
) -> bool {
    event matches TransportEvent::SubstreamOpened { peer: p, direction, substream: s, .. } && p
        == peer && direction == Direction::Outbound(id) && s == substream
}

/// Whether `message` asks its receiver to store `record`.
pub open spec fn asks_to_store(message: Message, record: Record) -> bool {
    &&& message.message_type == 0
    &&& message.key@ == record.key@
    &&& message.record matches Some(sent) && sent.key@ == record.key@ && sent.value@
        == record.value@
    &&& message.closer_peers@.len() == 0
}

/// Whether nothing is done but to send `peer` the request to store `record` over `substream`.
pub open spec fn sends_record<S>(
    actions: Seq<KademliaAction<S>>,
    peer: PeerId,
    record: Record,
    substream: S,
) -> bool {
    &&& actions.len() == 1
    &&& actions[0] matches KademliaAction::SendMessage { peer: p, message, substream: s } && p
        == peer && s == substream && asks_to_store(message, record)
}

proof fn lemma_views<S>(actions: Seq<KademliaAction<S>>)
    ensures
        node::node_actions(actions).len() == actions.len(),
        forall|i: int|
            0 <= i < actions.len() ==> #[trigger] node::node_actions(actions)[i] == actions[i]@,
{
}

proof fn lemma_reached_kept(
    view: KademliaView,
    peers: Seq<KademliaPeer>,
    action: PeerActionView,
    outcomes: Seq<Reached>,
    i: int,
    id: SubstreamId,
)
    requires
        0 <= i < peers.len(),
        outcomes[i] == Reached::Substream(id),
    ensures
        ({
            let after = node::reached_all(view, peers, action, outcomes);
            &&& after.peers.contains_key(peers[i].peer)
            &&& after.peers[peers[i].peer].contains_key(id)
            &&& after.peers[peers[i].peer][id] == action
        }),
    decreases peers.len(),
{
    if i < peers.len() - 1 {
        lemma_reached_kept(view, peers.drop_last(), action, outcomes, i, id);
        assert(peers.drop_last()[i] == peers[i]);
    }
}

proof fn lemma_reached_other(
    view: KademliaView,
    peers: Seq<KademliaPeer>,
    action: PeerActionView,
    outcomes: Seq<Reached>,
    peer: PeerId,
)
    requires
        forall|j: int| 0 <= j < peers.len() ==> (#[trigger] peers[j]).peer != peer,
    ensures
        ({
            let after = node::reached_all(view, peers, action, outcomes);
            &&& after.peers.contains_key(peer) == view.peers.contains_key(peer)
            &&& after.peers[peer] == view.peers[peer]
            &&& after.pending_dials.contains_key(peer) == view.pending_dials.contains_key(peer)
            &&& after.pending_dials[peer] == view.pending_dials[peer]
        }),
    decreases peers.len(),
{
    if peers.len() > 0 {
        assert forall|j: int| 0 <= j < peers.drop_last().len() implies (
        #[trigger] peers.drop_last()[j]).peer != peer by {
            assert(peers.drop_last()[j] == peers[j]);
        }
        assert(peers[peers.len() - 1].peer != peer);
        lemma_reached_other(view, peers.drop_last(), action, outcomes, peer);
    }
}

proof fn lemma_reached_dialing(
    view: KademliaView,
    peers: Seq<KademliaPeer>,
    action: PeerActionView,
    outcomes: Seq<Reached>,
    i: int,
)
    requires
        0 <= i < peers.len(),
        outcomes[i] == Reached::Dialing,
        forall|j: int|
            0 <= j < peers.len() && j != i ==> (#[trigger] peers[j]).peer != peers[i].peer,
    ensures
        ({
            let after = node::reached_all(view, peers, action, outcomes);
            let peer = peers[i].peer;
            let waiting = if view.pending_dials.contains_key(peer) {
                view.pending_dials[peer]
            } else {
                Seq::empty()
            };
            &&& after.peers.contains_key(peer) == view.peers.contains_key(peer)
            &&& after.pending_dials.contains_key(peer)
            &&& after.pending_dials[peer] == waiting.push(action)
        }),
    decreases peers.len(),
{
    let rest = peers.drop_last();
    assert forall|j: int| 0 <= j < rest.len() implies #[trigger] rest[j] == peers[j] by {}
    if i < peers.len() - 1 {
        assert(rest[i] == peers[i]);
        lemma_reached_dialing(view, rest, action, outcomes, i);
        assert(peers[peers.len() - 1].peer != peers[i].peer);
    } else {
        lemma_reached_other(view, rest, action, outcomes, peers[i].peer);
    }
}

/// A record goes to every node that was found for it and to which a substream is being opened:
/// once the substream is open, the request to store the record is sent over it, and nothing else
/// is done.
pub proof fn law_found_node_gets_record<S>(
    settings: KademliaSettings,
    before: KademliaView,
    record: Record,
    peers: Vec<KademliaPeer>,
    outcomes: Seq<Reached>,
    i: int,
    id: SubstreamId,
    middle: KademliaView,
    first: Seq<KademliaAction<S>>,
    event: TransportEvent<S>,
    substream: S,
    opened: Seq<Option<SubstreamId>>,
    now: Instant,
    after: KademliaView,
    actions: Vec<KademliaAction<S>>,
)
    requires
        0 <= i < peers@.len(),
        outcomes.len() == peers@.len(),
        outcomes[i] == Reached::Substream(id),
        acts(
            settings,
            before,
            QueryAction::PutRecordToFoundNodes { record, peers },
            outcomes,
            middle,
            first,
        ),
        substream_opened(event, peers@[i].peer, id, substream),
        leads(settings, middle, KademliaInput::Transport(event), opened, now, after, actions),
    ensures
        first.len() == 0,
        sends_record(actions@, peers@[i].peer, record, substream),
        !after.peers[peers@[i].peer].contains_key(id),
        !after.pending_substreams.contains_key(id),
{
    lemma_views(first);
    lemma_views(actions@);
    let put = PeerActionView::SendPutValue(message::put_value_message(record@));
    lemma_reached_kept(before, peers@, put, outcomes, i, id);
    assert(node::node_actions(actions@)[0] == actions@[0]@);
    let message = actions@[0]->SendMessage_message;
    assert(message@.closer_peers.len() == message.closer_peers@.len());
}

/// A record also goes to a node that had to be dialed: once the connection is there and a substream
/// has been opened for the record, the request to store it is sent over it.
pub proof fn law_dialed_node_gets_record<S>(
    settings: KademliaSettings,
    before: KademliaView,
    record: Record,
    peers: Vec<KademliaPeer>,
    outcomes: Seq<Reached>,
    i: int,
    id: SubstreamId,
    dialing: KademliaView,
    first: Seq<KademliaAction<S>>,
    connection: TransportEvent<S>,
    opened: Seq<Option<SubstreamId>>,
    connected_at: Instant,
    connected: KademliaView,
    second: Vec<KademliaAction<S>>,
    event: TransportEvent<S>,
    substream: S,
    now: Instant,
    after: KademliaView,
    actions: Vec<KademliaAction<S>>,
)
    requires
        0 <= i < peers@.len(),
        outcomes.len() == peers@.len(),
        outcomes[i] == Reached::Dialing,
        forall|j: int|
            0 <= j < peers@.len() && j != i ==> (#[trigger] peers@[j]).peer != peers@[i].peer,
        !before.peers.contains_key(peers@[i].peer),
        acts(
            settings,
            before,
            QueryAction::PutRecordToFoundNodes { record, peers },
            outcomes,
            dialing,
            first,
        ),
        connection matches TransportEvent::ConnectionEstablished { peer, .. } && peer
            == peers@[i].peer,
        opened.len() == 1 + if before.pending_dials.contains_key(peers@[i].peer) {
            before.pending_dials[peers@[i].peer].len()
        } else {
            0
        },
        opened.last() == Some(id),
        leads(
            settings,
            dialing,
            KademliaInput::Transport(connection),
            opened,
            connected_at,
            connected,
            second,
        ),
        substream_opened(event, peers@[i].peer, id, substream),
        leads(
            settings,
            connected,
            KademliaInput::Transport(event),
            Seq::empty(),
            now,
            after,
            actions,
        ),
    ensures
        first.len() == 0,
        second@.len() == 0,
        sends_record(actions@, peers@[i].peer, record, substream),
{
    lemma_views(first);
    lemma_views(second@);
    lemma_views(actions@);
    let put = PeerActionView::SendPutValue(message::put_value_message(record@));
    lemma_reached_dialing(before, peers@, put, outcomes, i);
    let waiting = dialing.pending_dials[peers@[i].peer];
    assert(waiting.last() == put);
    assert(connected.peers[peers@[i].peer] == node::opened_actions(waiting, opened));
    assert(node::node_actions(actions@)[0] == actions@[0]@);
    let message = actions@[0]->SendMessage_message;
    assert(message@.closer_peers.len() == message.closer_peers@.len());
}

proof fn lemma_grouped(records: Seq<PeerRecord>, i: int)
    requires
        0 <= i < records.len(),
    ensures
        handle::grouped(records).contains_key(records[i].record@),
        handle::grouped(records)[records[i].record@].contains(records[i].peer),
    decreases records.len(),
{
    let rest = records.drop_last();
    let before = handle::grouped(rest);
    let last = records.last();
    let peers = if before.contains_key(last.record@) {
        before[last.record@]
    } else {
        Seq::empty()
    };
    if i < rest.len() {
        lemma_grouped(rest, i);
        assert(rest[i] == records[i]);
        if records[i].record@ == last.record@ {
            let k = choose|k: int| 0 <= k < peers.len() && peers[k] == records[i].peer;
            assert(peers.push(last.peer)[k] == records[i].peer);
        }
    } else {
        assert(peers.push(last.peer)[peers.len() as int] == last.peer);
    }
}

proof fn lemma_grouped_only(records: Seq<PeerRecord>, record: RecordView, peer: PeerId) -> (i: int)
    requires
        handle::grouped(records).contains_key(record),
        handle::grouped(records)[record].contains(peer),
    ensures
        0 <= i < records.len(),
        records[i].record@ == record,
        records[i].peer == peer,
    decreases records.len(),
{
    let rest = records.drop_last();
    let before = handle::grouped(rest);
    let last = records.last();
    if records.len() == 0 {
        0
    } else if record == last.record@ {
        if peer == last.peer {
            records.len() - 1
        } else {
            let peers = if before.contains_key(record) {
                before[record]
            } else {
                Seq::empty()
            };
            let k = choose|k: int|
                0 <= k < peers.push(last.peer).len() && peers.push(last.peer)[k] == peer;
            assert(peers[k] == peer);
            lemma_grouped_only(rest, record, peer)
        }
    } else {
        lemma_grouped_only(rest, record, peer)
    }
}

/// Whether `event` says that query `query` has found exactly `records`: every record is named with
/// every peer that has sent it, and with no other.
pub open spec fn reports_records(
    event: KademliaEvent,
    query: QueryId,
    records: Seq<PeerRecord>,
) -> bool {
    &&& event matches KademliaEvent::GetRecordSuccess { query_id, records: found }
    &&& query_id == query
    &&& found matches RecordsType::Network(by_record)
    &&& forall|i: int|
        #![trigger records[i]]
        0 <= i < records.len() ==> by_record@.contains_key(records[i].record@)
            && by_record@[records[i].record@]@.contains(records[i].peer)
    &&& forall|record: RecordView, peer: PeerId|
        #![trigger by_record@[record]@.contains(peer)]
        by_record@.contains_key(record) && by_record@[record]@.contains(peer) ==> exists|i: int|
            #![trigger records[i]]
            0 <= i < records.len() && records[i].record@ == record && records[i].peer == peer
}

/// A query for a record that ends with records reports one event, and that one names every record
/// that was found with every peer that has sent it, and nothing else.
pub proof fn law_found_records_reported<S>(
    settings: KademliaSettings,
    before: KademliaView,
    query: QueryId,
    records: Vec<PeerRecord>,
    outcomes: Seq<Reached>,
    after: KademliaView,
    actions: Seq<KademliaAction<S>>,
)
    requires
        acts(
            settings,
            before,
            QueryAction::GetRecordQueryDone { query_id: query, records },
            outcomes,
            after,
            actions,
        ),
    ensures
        actions.len() == 1,
        actions[0] matches KademliaAction::Report(event) && reports_records(
            event,
            query,
            records@,
        ),
        after.queries == before.queries,
        after.peers == before.peers,
        after.buckets == before.buckets,
{
    lemma_views(actions);
    assert(node::node_actions(actions)[0] == actions[0]@);
    let event = actions[0]->Report_0;
    let by_record = event->GetRecordSuccess_records->Network_0;
    let list = |p: Vec<PeerId>| handle::peer_list(p);
    assert(by_record@.map_values(list) == handle::grouped(records@));
    assert forall|i: int|
        #![trigger records@[i]]
        0 <= i < records@.len() implies by_record@.contains_key(records@[i].record@)
        && by_record@[records@[i].record@]@.contains(records@[i].peer) by {
        lemma_grouped(records@, i);
        assert(by_record@.map_values(list).contains_key(records@[i].record@));
    }
    assert forall|record: RecordView, peer: PeerId|
        #![trigger by_record@[record]@.contains(peer)]
        by_record@.contains_key(record) && by_record@[record]@.contains(peer) implies exists|i: int|
        #![trigger records@[i]]
        0 <= i < records@.len() && records@[i].record@ == record && records@[i].peer == peer by {
        assert(by_record@.map_values(list).contains_key(record));
        let i = lemma_grouped_only(records@, record, peer);
        assert(records@[i].peer == peer);
    }
}

/// The failure of a query is reported for a query that has failed, once, and never otherwise.
pub proof fn law_only_failed_queries_reported<S>(
    settings: KademliaSettings,
    before: KademliaView,
    action: QueryAction,
    outcomes: Seq<Reached>,
    after: KademliaView,
    actions: Seq<KademliaAction<S>>,
    query: QueryId,
)
    requires
        acts(settings, before, action, outcomes, after, actions),
    ensures
        action == (QueryAction::QueryFailed { query }) ==> actions =~= seq![
            KademliaAction::<S>::Report(KademliaEvent::QueryFailed { query_id: query }),
        ] && after == before,
        actions.contains(
            KademliaAction::<S>::Report(KademliaEvent::QueryFailed { query_id: query }),
        ) ==> action == (QueryAction::QueryFailed { query }),
{
    lemma_views(actions);
    let failed = KademliaAction::<S>::Report(KademliaEvent::QueryFailed { query_id: query });
    if actions.contains(failed) {
        let i = choose|i: int| 0 <= i < actions.len() && actions[i] == failed;
        assert(node::node_actions(actions)[i] == failed@);
    }
    if action == (QueryAction::QueryFailed { query }) {
        assert(node::node_actions(actions)[0] == actions[0]@);
    }
}

/// The peers that are to be reached for a question or for a record are those it is for, in order,
/// and nobody is to be reached for anything else.
pub proof fn law_peers_to_reach(action: QueryAction)
    ensures
        match action {
            QueryAction::SendMessage { peer, .. } => node::to_reach(action@) =~= seq![peer],
            QueryAction::PutRecordToFoundNodes { peers, .. } => node::to_reach(action@).len()
                == peers@.len() && forall|i: int|
                0 <= i < peers@.len() ==> node::to_reach(action@)[i] == (#[trigger] peers@[i]).peer,
            _ => node::to_reach(action@).len() == 0,
        },
{
}

} // verus!
