//! What a node does with the messages and the commands that come to it.

use super::flows;
use super::handle::{KademliaCommand, KademliaEvent, Quorum, RecordsType, RoutingTableUpdateMode};
use super::message;
use super::message::{KademliaMessage, KademliaMessageView};
use super::node;
use super::node::{
    KademliaAction, KademliaActionView, KademliaInput, KademliaSettings, KademliaView,
    PeerActionView, QueryResult,
};
use super::query::candidates::PeersView;
use super::query::engine::QueryView;
use super::query::QueryId;
use super::record::{PeerRecord, Record, RecordKey, RecordView};
use super::routing_table;
use super::schema::{Message, Peer};
use super::types;
use super::types::{KademliaPeer, KademliaPeerView};
use super::u256::U256;
use crate::address;
use crate::address::Multiaddr;
use crate::error::Error;
use crate::peer_id::PeerId;
use crate::protocol::{Direction, TransportEvent};
use crate::time::Instant;
use crate::types::SubstreamId;
use vstd::prelude::*;

verus! {

/// Whether `message` of `peer` has been read from `substream`, as an answer to `query` if there is
/// one.
pub open spec fn reads<S>(
    settings: KademliaSettings,
    before: KademliaView,
    peer: PeerId,
    query: Option<QueryId>,
    message: Option<Message>,
    substream: S,
    now: Instant,
    after: KademliaView,
    actions: Vec<KademliaAction<S>>,
) -> bool {
    flows::leads(
        settings,
        before,
        KademliaInput::Executor {
            peer,
            query_id: query,
            result: QueryResult::ReadSuccess { substream, message },
        },
        Seq::empty(),
        now,
        after,
        actions,
    )
}

/// Whether `wire` names `peers`, in order, with their addresses and connections.
pub open spec fn names_peers(wire: Seq<Peer>, peers: Seq<KademliaPeerView>) -> bool {
    &&& wire.len() == peers.len()
    &&& forall|i: int|
        #![trigger wire[i]]
        0 <= i < wire.len() ==> wire[i].id@ == peers[i].peer.spec_bytes() && Seq::new(
            wire[i].addrs@.len(),
            |k: int| wire[i].addrs@[k]@,
        ) == peers[i].addresses && wire[i].connection == peers[i].connection.number()
}

/// Whether `wire` names the known peers that are closest to `place`, as many as may be named.
pub open spec fn names_closest(
    settings: KademliaSettings,
    view: KademliaView,
    place: U256,
    wire: Seq<Peer>,
) -> bool {
    exists|closest: Seq<KademliaPeerView>|
        {
            &&& #[trigger] routing_table::is_closest(
                routing_table::all_peers(view.buckets),
                place,
                settings.replication_factor as nat,
                closest,
            )
            &&& names_peers(wire, closest)
        }
}

proof fn lemma_names_peers(message: Message, peers: Seq<KademliaPeerView>)
    requires
        message@.closer_peers == message::wire_peers(peers),
    ensures
        names_peers(message.closer_peers@, peers),
{
    let wire = message.closer_peers@;
    assert(message@.closer_peers.len() == wire.len());
    assert forall|i: int| #![trigger wire[i]] 0 <= i < wire.len() implies wire[i].id@
        == peers[i].peer.spec_bytes() && Seq::new(
        wire[i].addrs@.len(),
        |k: int| wire[i].addrs@[k]@,
    ) == peers[i].addresses && wire[i].connection == peers[i].connection.number() by {
        assert(message@.closer_peers[i] == wire[i]@);
        assert(wire[i]@ == types::wire_peer(peers[i]));
        assert(wire[i]@.addrs =~= Seq::new(wire[i].addrs@.len(), |k: int| wire[i].addrs@[k]@));
    }
}

/// A peer that asks for the peers closest to a key is answered with those that are known, over the
/// substream it has asked on; nothing changes.
pub proof fn law_find_node_served<S>(
    settings: KademliaSettings,
    before: KademliaView,
    peer: PeerId,
    request: Message,
    substream: S,
    now: Instant,
    after: KademliaView,
    actions: Vec<KademliaAction<S>>,
)
    requires
        request.message_type == 4,
        reads(settings, before, peer, None, Some(request), substream, now, after, actions),
    ensures
        after == before,
        actions@.len() == 1,
        actions@[0] matches KademliaAction::SendMessage { peer: p, message, substream: s } && p
            == peer && s == substream && message.message_type == 4 && message.key@ == request.key@
            && message.record is None && names_closest(
            settings,
            before,
            types::place_of(request.key@),
            message.closer_peers@,
        ),
{
    let list = node::node_actions(actions@);
    assert(list.len() == actions@.len());
    let closest = choose|closest: Seq<KademliaPeerView>|
        {
            &&& #[trigger] routing_table::is_closest(
                routing_table::all_peers(before.buckets),
                types::place_of(request.key@),
                settings.replication_factor as nat,
                closest,
            )
            &&& list == seq![
                KademliaActionView::SendMessage {
                    peer,
                    message: message::find_node_response_message(request.key@, closest),
                    substream,
                },
            ]
        };
    assert(list[0] == actions@[0]@);
    lemma_names_peers(actions@[0]->SendMessage_message, closest);
}

/// A peer that asks for a record is answered with the record, if it is there and has not expired,
/// and with the known peers that are closest to its key.
pub proof fn law_get_value_served<S>(
    settings: KademliaSettings,
    before: KademliaView,
    peer: PeerId,
    request: Message,
    substream: S,
    now: Instant,
    after: KademliaView,
    actions: Vec<KademliaAction<S>>,
)
    requires
        request.message_type == 1,
        request.key@.len() > 0,
        reads(settings, before, peer, None, Some(request), substream, now, after, actions),
    ensures
        actions@.len() == 1,
        actions@[0] matches KademliaAction::SendMessage { peer: p, message, substream: s } && p
            == peer && s == substream && message.message_type == 1 && message.key@ == request.key@
            && names_closest(
            settings,
            before,
            types::place_of(request.key@),
            message.closer_peers@,
        ) && match message.record {
            Some(sent) => before.store.records.contains_key(request.key@)
                && !before.store.records[request.key@].expired(now) && sent.key@
                == before.store.records[request.key@].key && sent.value@
                == before.store.records[request.key@].value,
            None => before.store.records.contains_key(request.key@)
                ==> before.store.records[request.key@].expired(now),
        },
        after == (KademliaView { store: after.store, ..before }),
        forall|key: Seq<u8>|
            before.store.records.contains_key(key) && !before.store.records[key].expired(now)
                ==> #[trigger] after.store.records.contains_key(key) && after.store.records[key]
                == before.store.records[key],
{
    let list = node::node_actions(actions@);
    assert(list.len() == actions@.len());
    let closest = choose|closest: Seq<KademliaPeerView>|
        {
            &&& #[trigger] routing_table::is_closest(
                routing_table::all_peers(before.buckets),
                types::place_of(request.key@),
                settings.replication_factor as nat,
                closest,
            )
            &&& list == seq![
                KademliaActionView::SendMessage {
                    peer,
                    message: message::get_value_response_message(
                        request.key@,
                        closest,
                        before.store.get(request.key@, now),
                    ),
                    substream,
                },
            ]
        };
    assert(list[0] == actions@[0]@);
    lemma_names_peers(actions@[0]->SendMessage_message, closest);
}

/// A record that a peer asks to be stored is stored if it is small enough and there is room for its
/// key: with its key and its value, without a publisher, and for good.
pub proof fn law_put_value_served<S>(
    settings: KademliaSettings,
    before: KademliaView,
    peer: PeerId,
    query: Option<QueryId>,
    request: Message,
    substream: S,
    now: Instant,
    after: KademliaView,
    actions: Vec<KademliaAction<S>>,
)
    requires
        request.message_type == 0,
        request.record is Some,
        reads(settings, before, peer, query, Some(request), substream, now, after, actions),
    ensures
        ({
            let sent = request.record->Some_0;
            let records = before.store.records;
            let fits = sent.value@.len() < settings.store.max_record_size_bytes && (
            records.contains_key(sent.key@) || records.len() < settings.store.max_records);
            after.store.records == if fits {
                records.insert(
                    sent.key@,
                    RecordView { key: sent.key@, value: sent.value@, publisher: None, expires: None },
                )
            } else {
                records
            }
        }),
        actions@.len() == 0,
        after.store.providers == before.store.providers,
        after == (KademliaView { store: after.store, ..before }),
{
    assert(node::node_actions(actions@).len() == actions@.len());
}

/// A message that cannot be understood is dropped.
pub proof fn law_unreadable_message_dropped<S>(
    settings: KademliaSettings,
    before: KademliaView,
    peer: PeerId,
    query: Option<QueryId>,
    message: Option<Message>,
    substream: S,
    now: Instant,
    after: KademliaView,
    actions: Vec<KademliaAction<S>>,
)
    requires
        message matches Some(m) ==> (m.message_type != 0 && m.message_type != 1 && m.message_type
            != 4) || (m.message_type == 0 && m.record is None) || (m.message_type == 1
            && m.key@.len() == 0 && query is None),
        reads(settings, before, peer, query, message, substream, now, after, actions),
    ensures
        actions@.len() == 0,
        after == before,
{
    assert(node::node_actions(actions@).len() == actions@.len());
}

/// A message that was sent is the end of its substream, and an inbound substream is read from.
pub proof fn law_substreams_used<S>(
    settings: KademliaSettings,
    before: KademliaView,
    peer: PeerId,
    query: Option<QueryId>,
    substream: S,
    opened: Seq<Option<SubstreamId>>,
    now: Instant,
    after: KademliaView,
    actions: Vec<KademliaAction<S>>,
    input: KademliaInput<S>,
)
    requires
        flows::leads(settings, before, input, opened, now, after, actions),
    ensures
        input == (KademliaInput::<S>::Executor {
            peer,
            query_id: query,
            result: QueryResult::SendSuccess { substream },
        }) ==> after == before && actions@ =~= seq![
            KademliaAction::<S>::CloseSubstream { substream },
        ],
        (input matches KademliaInput::Transport(
            TransportEvent::SubstreamOpened { peer: p, direction, substream: s, .. },
        ) && p == peer && direction == Direction::Inbound && s == substream) ==> after == before
            && actions@ =~= seq![KademliaAction::<S>::ReadMessage { peer, substream }],
{
    let list = node::node_actions(actions@);
    assert(list.len() == actions@.len());
    if list.len() > 0 {
        assert(list[0] == actions@[0]@);
    }
}

/// A substream that nobody has asked for, or whose query has no question to the peer any more, is
/// closed.
pub proof fn law_needless_substream_closed<S>(
    settings: KademliaSettings,
    before: KademliaView,
    peer: PeerId,
    id: SubstreamId,
    event: TransportEvent<S>,
    substream: S,
    opened: Seq<Option<SubstreamId>>,
    now: Instant,
    after: KademliaView,
    actions: Vec<KademliaAction<S>>,
)
    requires
        before.peers.contains_key(peer),
        before.peers[peer].contains_key(id) ==> (before.peers[peer][id]
            matches PeerActionView::SendFindNode(query) && !before.queries.contains_key(query)),
        flows::substream_opened(event, peer, id, substream),
        flows::leads(
            settings,
            before,
            KademliaInput::Transport(event),
            opened,
            now,
            after,
            actions,
        ),
    ensures
        actions@ =~= seq![KademliaAction::<S>::CloseSubstream { substream }],
        after.queries == before.queries,
        after.store == before.store,
{
    let list = node::node_actions(actions@);
    assert(list.len() == actions@.len());
    assert(list[0] == actions@[0]@);
}

/// A connection that is established makes the peer a connected one, without anything being done.
pub proof fn law_new_peer_connected<S>(
    settings: KademliaSettings,
    before: KademliaView,
    peer: PeerId,
    event: TransportEvent<S>,
    opened: Seq<Option<SubstreamId>>,
    now: Instant,
    after: KademliaView,
    actions: Vec<KademliaAction<S>>,
)
    requires
        event matches TransportEvent::ConnectionEstablished { peer: p, .. } && p == peer,
        flows::leads(
            settings,
            before,
            KademliaInput::Transport(event),
            opened,
            now,
            after,
            actions,
        ),
    ensures
        actions@.len() == 0,
        after.peers.contains_key(peer),
        before.peers.contains_key(peer) ==> after == before,
        !before.peers.contains_key(peer) && !before.pending_dials.contains_key(peer) ==> after.peers
            == before.peers.insert(peer, Map::empty()) && after.queries =~= before.queries,
        !before.peers.contains_key(peer) ==> !after.pending_dials.contains_key(peer),
        after.store == before.store,
{
    assert(node::node_actions(actions@).len() == actions@.len());
}

/// A node whose channels are closed stops.
pub proof fn law_exhausted_node_stops<S>(
    settings: KademliaSettings,
    before: KademliaView,
    opened: Seq<Option<SubstreamId>>,
    now: Instant,
    after: KademliaView,
    result: Result<Vec<KademliaAction<S>>, Error>,
    input: KademliaInput<S>,
)
    requires
        node::input_handled(settings, before, input, opened, now, after, result),
    ensures
        result is Err <==> input is Exhausted,
        result matches Err(error) ==> error == Error::EssentialTaskClosed && after == before,
{
}

/// A record that the local store has is reported at once to a user to whom one answer is enough,
/// and no query is started for it.
pub proof fn law_local_record_reported<S>(
    settings: KademliaSettings,
    before: KademliaView,
    key: RecordKey,
    query: QueryId,
    opened: Seq<Option<SubstreamId>>,
    now: Instant,
    after: KademliaView,
    actions: Vec<KademliaAction<S>>,
)
    requires
        before.store.records.contains_key(key@),
        !before.store.records[key@].expired(now),
        flows::leads(
            settings,
            before,
            KademliaInput::Command(
                KademliaCommand::GetRecord { key, quorum: Quorum::One, query_id: query },
            ),
            opened,
            now,
            after,
            actions,
        ),
    ensures
        after == before,
        actions@.len() == 1,
        actions@[0] matches KademliaAction::Report(
            KademliaEvent::GetRecordSuccess { query_id, records: RecordsType::LocalStore(record) },
        ) && query_id == query && record@ == before.store.records[key@],
{
    let list = node::node_actions(actions@);
    assert(list.len() == actions@.len());
    assert(list[0] == actions@[0]@);
}

/// A record that is put to given peers enters the local store if the user wants it to, and its
/// query is for that record.
pub proof fn law_put_to_given_peers_starts<S>(
    settings: KademliaSettings,
    before: KademliaView,
    record: Record,
    query: QueryId,
    peers: Vec<PeerId>,
    update_local_store: bool,
    opened: Seq<Option<SubstreamId>>,
    now: Instant,
    after: KademliaView,
    actions: Vec<KademliaAction<S>>,
)
    requires
        flows::leads(
            settings,
            before,
            KademliaInput::Command(
                KademliaCommand::PutRecordToPeers {
                    record,
                    query_id: query,
                    peers,
                    update_local_store,
                },
            ),
            opened,
            now,
            after,
            actions,
        ),
    ensures
        actions@.len() == 0,
        after.queries.contains_key(query),
        after.queries[query] matches QueryView::PutRecordToPeers { record: r, .. } && r == record,
        !update_local_store ==> after.store == before.store,
        update_local_store && before.store.takes(settings.store, record@)
            ==> after.store.records == before.store.records.insert(record.key@, record@),
        after.peers == before.peers,
{
    assert(node::node_actions(actions@).len() == actions@.len());
}

/// The transport is told of the addresses of a peer that the user has named.
pub proof fn law_known_peer_told<S>(
    settings: KademliaSettings,
    before: KademliaView,
    peer: PeerId,
    addresses: Vec<Multiaddr>,
    opened: Seq<Option<SubstreamId>>,
    now: Instant,
    after: KademliaView,
    actions: Vec<KademliaAction<S>>,
)
    requires
        flows::leads(
            settings,
            before,
            KademliaInput::Command(KademliaCommand::AddKnownPeer { peer, addresses }),
            opened,
            now,
            after,
            actions,
        ),
    ensures
        actions@.len() == 1,
        actions@[0] matches KademliaAction::AddKnownAddress { peer: p, addresses: told } && p
            == peer && address::address_views(told@) == address::address_views(addresses@),
        after == (KademliaView { buckets: after.buckets, ..before }),
{
    let list = node::node_actions(actions@);
    assert(list.len() == actions@.len());
    assert(list[0] == actions@[0]@);
}

/// Whether the user is told of the peers `found`, but for the local one, and the transport of the
/// addresses of each of them, and nothing else is done.
pub open spec fn announces<S>(
    actions: Seq<KademliaAction<S>>,
    local: PeerId,
    found: Seq<KademliaPeerView>,
) -> bool {
    &&& actions.len() > 0
    &&& actions[0] matches KademliaAction::Report(KademliaEvent::RoutingTableUpdate { peers })
    &&& forall|i: int|
        0 <= i < found.len() && (#[trigger] found[i]).peer != local ==> peers@.contains(
            found[i].peer,
        ) && told_of(actions, found[i])
    &&& forall|k: int|
        0 <= k < peers@.len() ==> #[trigger] peers@[k] != local && was_found(found, peers@[k])
    &&& forall|k: int| 1 <= k < actions.len() ==> names_found(#[trigger] actions[k], local, found)
}

/// Whether `action` tells the transport of the addresses of `peer`.
pub open spec fn tells_of<S>(action: KademliaAction<S>, peer: KademliaPeerView) -> bool {
    action matches KademliaAction::AddKnownAddress { peer: p, addresses } && p == peer.peer
        && address::address_views(addresses@) == peer.addresses
}

/// Whether the transport is told of the addresses of `peer`.
pub open spec fn told_of<S>(actions: Seq<KademliaAction<S>>, peer: KademliaPeerView) -> bool {
    exists|k: int| 1 <= k < actions.len() && tells_of(#[trigger] actions[k], peer)
}

/// Whether `peer` is one of `found`.
pub open spec fn was_found(found: Seq<KademliaPeerView>, peer: PeerId) -> bool {
    exists|i: int| 0 <= i < found.len() && (#[trigger] found[i]).peer == peer
}

/// Whether `action` tells the transport of the addresses of one of `found` that is not local.
pub open spec fn names_found<S>(
    action: KademliaAction<S>,
    local: PeerId,
    found: Seq<KademliaPeerView>,
) -> bool {
    exists|i: int|
        0 <= i < found.len() && (#[trigger] found[i]).peer != local && tells_of(action, found[i])
}

proof fn lemma_announces<S>(
    actions: Seq<KademliaAction<S>>,
    local: PeerId,
    found: Seq<KademliaPeerView>,
)
    requires
        node::node_actions(actions) == node::update_actions::<S>(node::others(local, found)),
    ensures
        announces(actions, local, found),
{
    let keep = |p: KademliaPeerView| p.peer != local;
    let others = node::others(local, found);
    let list = node::node_actions(actions);
    assert(list.len() == actions.len());
    assert(list.len() == others.len() + 1);
    assert(list[0] == actions[0]@);
    let peers = actions[0]->Report_0->RoutingTableUpdate_peers@;
    assert(peers.len() == others.len());
    assert forall|k: int| 0 <= k < others.len() implies tells_of(
        actions[k + 1],
        #[trigger] others[k],
    ) && peers[k] == others[k].peer by {
        assert(list[k + 1] == actions[k + 1]@);
    }
    assert forall|i: int| 0 <= i < found.len() && (
    #[trigger] found[i]).peer != local implies peers.contains(found[i].peer) && told_of(
        actions,
        found[i],
    ) by {
        let k = lemma_filtered_to(found, keep, i);
        assert(others[k] == found[i]);
        assert(peers[k] == found[i].peer);
        assert(tells_of(actions[k + 1], found[i]));
    }
    assert forall|k: int| 0 <= k < peers.len() implies #[trigger] peers[k] != local && was_found(
        found,
        peers[k],
    ) by {
        let i = lemma_filtered_from(found, keep, k);
        assert(found[i] == others[k]);
        assert(found[i].peer == peers[k]);
    }
    assert forall|k: int| 1 <= k < actions.len() implies names_found(
        #[trigger] actions[k],
        local,
        found,
    ) by {
        let i = lemma_filtered_from(found, keep, k - 1);
        assert(found[i] == others[k - 1]);
        assert(tells_of(actions[k - 1 + 1], others[k - 1]));
        assert(tells_of(actions[k], found[i]));
    }
}

proof fn lemma_filtered_to<A>(s: Seq<A>, keep: spec_fn(A) -> bool, i: int) -> (k: int)
    requires
        0 <= i < s.len(),
        keep(s[i]),
    ensures
        0 <= k < s.filter(keep).len(),
        s.filter(keep)[k] == s[i],
    decreases s.len(),
{
    reveal(Seq::filter);
    let rest = s.drop_last();
    if i < rest.len() {
        assert(rest[i] == s[i]);
        lemma_filtered_to(rest, keep, i)
    } else {
        rest.filter(keep).len() as int
    }
}

proof fn lemma_filtered_from<A>(s: Seq<A>, keep: spec_fn(A) -> bool, k: int) -> (i: int)
    requires
        0 <= k < s.filter(keep).len(),
    ensures
        0 <= i < s.len(),
        s[i] == s.filter(keep)[k],
        keep(s[i]),
    decreases s.len(),
{
    reveal(Seq::filter);
    let rest = s.drop_last();
    if s.len() == 0 {
        0
    } else if k < rest.filter(keep).len() {
        lemma_filtered_from(rest, keep, k)
    } else {
        s.len() - 1
    }
}

/// Whether the peers of a query have taken note of the answer of `peer`, which has named `found`: it
/// is not waited for any more, and everybody it has named is to be asked who has not been asked and
/// is not the local node.
pub open spec fn notes_answer(
    before: PeersView,
    local: PeerId,
    target: U256,
    peer: PeerId,
    found: Seq<KademliaPeerView>,
    after: PeersView,
) -> bool {
    &&& after.pending == before.pending.remove(peer)
    &&& after.queried == before.queried.insert(peer)
    &&& forall|i: int|
        #![trigger found[i]]
        0 <= i < found.len() && found[i].peer != local && !after.queried.contains(found[i].peer)
            && !after.pending.contains_key(found[i].peer) ==> after.candidates.contains_key(
            types::xor_distance(target, found[i].key.bytes),
        )
    &&& forall|d: types::Distance| #[trigger]
        before.candidates.contains_key(d) ==> after.candidates.contains_key(d)
    &&& forall|d: types::Distance| #[trigger]
        after.candidates.contains_key(d) && !before.candidates.contains_key(d) ==> exists|i: int|
            #![trigger found[i]]
            0 <= i < found.len() && found[i].peer == after.candidates[d].peer && found[i].peer
                != local && !after.queried.contains(found[i].peer)
}

proof fn lemma_notes_answer(
    before: PeersView,
    local: PeerId,
    target: U256,
    peer: PeerId,
    peers: Seq<KademliaPeer>,
)
    requires
        before.pending.contains_key(peer),
        before.pending[peer].peer == peer,
    ensures
        notes_answer(
            before,
            local,
            target,
            peer,
            types::peer_views(peers),
            PeersView {
                candidates: before.answered(peer).heard_of(local, target, peers),
                ..before.answered(peer)
            },
        ),
    decreases peers.len(),
{
    let answered = before.answered(peer);
    let found = types::peer_views(peers);
    let after = PeersView { candidates: answered.heard_of(local, target, peers), ..answered };
    if peers.len() > 0 {
        let rest = peers.drop_last();
        let named = types::peer_views(rest);
        lemma_notes_answer(before, local, target, peer, rest);
        let held = PeersView { candidates: answered.heard_of(local, target, rest), ..answered };
        let last = peers.len() - 1;
        assert(found[last] == peers[last]@);
        assert forall|i: int| 0 <= i < named.len() implies #[trigger] named[i] == found[i] by {}
        assert forall|i: int|
            #![trigger found[i]]
            0 <= i < found.len() && found[i].peer != local && !after.queried.contains(found[i].peer)
                && !after.pending.contains_key(
                found[i].peer,
            ) implies after.candidates.contains_key(
            types::xor_distance(target, found[i].key.bytes),
        ) by {
            if i < last {
                assert(named[i] == found[i]);
            }
        }
        assert forall|d: types::Distance| #[trigger]
            after.candidates.contains_key(d) && !before.candidates.contains_key(d) implies exists|
            i: int,
        |
            #![trigger found[i]]
            0 <= i < found.len() && found[i].peer == after.candidates[d].peer && found[i].peer
                != local && !after.queried.contains(found[i].peer) by {
            if answered.admits(local, peers[last].peer) && d == types::xor_distance(
                target,
                peers[last].key.bytes,
            ) {
                assert(found[last].peer == after.candidates[d].peer);
            } else {
                assert(held.candidates.contains_key(d));
                let i = choose|i: int|
                    #![trigger named[i]]
                    0 <= i < named.len() && named[i].peer == held.candidates[d].peer
                        && named[i].peer != local && !held.queried.contains(named[i].peer);
                assert(found[i].peer == after.candidates[d].peer);
            }
        }
    }
}

/// The answer to a search is noted by its query: the peer counts among those that have answered
/// while there is room for it, and whom it has named is asked next. The user and the transport are
/// told of them.
pub proof fn law_search_answer_noted<S>(
    settings: KademliaSettings,
    before: KademliaView,
    peer: PeerId,
    query: QueryId,
    answer: Message,
    substream: S,
    now: Instant,
    after: KademliaView,
    actions: Vec<KademliaAction<S>>,
)
    requires
        before.queries.contains_key(query),
        before.queries[query] matches QueryView::FindNode { state, .. }
            && state.peers.pending.contains_key(peer) && state.peers.pending[peer].peer == peer,
        answer.message_type == 4,
        reads(settings, before, peer, Some(query), Some(answer), substream, now, after, actions),
    ensures
        ({
            let found = message::parsed_peers(answer@.closer_peers);
            let config = before.queries[query]->FindNode_config;
            let asked = before.queries[query]->FindNode_state;
            let entry = asked.peers.pending[peer];
            &&& announces(actions@, settings.local_key.preimage, found)
            &&& after.queries.contains_key(query)
            &&& after.queries[query] matches QueryView::FindNode { config: c, state }
            &&& c == config
            &&& notes_answer(
                asked.peers,
                config.local_peer_id,
                config.target.bytes,
                peer,
                found,
                state.peers,
            )
            &&& asked.responses.len() < config.replication_factor ==> state.responses
                == asked.responses.insert(
                types::xor_distance(config.target.bytes, entry.key.bytes),
                entry,
            )
        }),
        after.store == before.store,
        after.peers == before.peers,
        settings.update_mode == RoutingTableUpdateMode::Manual ==> after.buckets == before.buckets,
{
    let found = message::parsed_peers(answer@.closer_peers);
    let content = KademliaMessageView::FindNode { target: answer.key@, peers: found };
    lemma_announces(actions@, settings.local_key.preimage, found);
    let said = choose|said: KademliaMessage|
        {
            &&& said@ == content
            &&& after.queries == before.queries.insert(
                query,
                #[trigger] before.queries[query].answered(peer, said, now),
            )
        };
    let config = before.queries[query]->FindNode_config;
    let asked = before.queries[query]->FindNode_state;
    lemma_notes_answer(
        asked.peers,
        config.local_peer_id,
        config.target.bytes,
        peer,
        said->FindNode_peers@,
    );
}

/// The answer to the search for those that a record is to be put to is noted in the same way, and
/// the record stays what it is.
pub proof fn law_put_search_answer_noted<S>(
    settings: KademliaSettings,
    before: KademliaView,
    peer: PeerId,
    query: QueryId,
    answer: Message,
    substream: S,
    now: Instant,
    after: KademliaView,
    actions: Vec<KademliaAction<S>>,
)
    requires
        before.queries.contains_key(query),
        before.queries[query] matches QueryView::PutRecord { state, .. }
            && state.peers.pending.contains_key(peer) && state.peers.pending[peer].peer == peer,
        answer.message_type == 4,
        reads(settings, before, peer, Some(query), Some(answer), substream, now, after, actions),
    ensures
        ({
            let found = message::parsed_peers(answer@.closer_peers);
            let config = before.queries[query]->PutRecord_config;
            let asked = before.queries[query]->PutRecord_state;
            let entry = asked.peers.pending[peer];
            &&& announces(actions@, settings.local_key.preimage, found)
            &&& after.queries.contains_key(query)
            &&& after.queries[query] matches QueryView::PutRecord { record, config: c, state }
            &&& c == config
            &&& record == before.queries[query]->PutRecord_record
            &&& notes_answer(
                asked.peers,
                config.local_peer_id,
                config.target.bytes,
                peer,
                found,
                state.peers,
            )
            &&& asked.responses.len() < config.replication_factor ==> state.responses
                == asked.responses.insert(
                types::xor_distance(config.target.bytes, entry.key.bytes),
                entry,
            )
        }),
        after.store == before.store,
        after.peers == before.peers,
        settings.update_mode == RoutingTableUpdateMode::Manual ==> after.buckets == before.buckets,
{
    let found = message::parsed_peers(answer@.closer_peers);
    let content = KademliaMessageView::FindNode { target: answer.key@, peers: found };
    lemma_announces(actions@, settings.local_key.preimage, found);
    let said = choose|said: KademliaMessage|
        {
            &&& said@ == content
            &&& after.queries == before.queries.insert(
                query,
                #[trigger] before.queries[query].answered(peer, said, now),
            )
        };
    let config = before.queries[query]->PutRecord_config;
    let asked = before.queries[query]->PutRecord_state;
    lemma_notes_answer(
        asked.peers,
        config.local_peer_id,
        config.target.bytes,
        peer,
        said->FindNode_peers@,
    );
}

/// Whether `after` are the records `before` and, if `answer` brings one, that one, as sent by
/// `peer`.
pub open spec fn keeps_record(
    before: Seq<PeerRecord>,
    peer: PeerId,
    answer: Message,
    after: Seq<PeerRecord>,
) -> bool {
    match answer.record {
        Some(sent) => {
            &&& after.len() == before.len() + 1
            &&& after.take(before.len() as int) == before
            &&& after.last().peer == peer
            &&& after.last().record.key@ == sent.key@
            &&& after.last().record.value@ == sent.value@
            &&& after.last().record.publisher is None
            &&& after.last().record.expires is None
        },
        None => after == before,
    }
}

/// The answer to the search for a record is noted by its query: the record that it brings is one
/// of those that were found, as sent by the peer, and whom it has named is asked next. The user and
/// the transport are told of them.
pub proof fn law_record_answer_noted<S>(
    settings: KademliaSettings,
    before: KademliaView,
    peer: PeerId,
    query: QueryId,
    answer: Message,
    substream: S,
    now: Instant,
    after: KademliaView,
    actions: Vec<KademliaAction<S>>,
)
    requires
        before.queries.contains_key(query),
        before.queries[query] matches QueryView::GetRecord { state, .. }
            && state.peers.pending.contains_key(peer) && state.peers.pending[peer].peer == peer,
        answer.message_type == 1,
        reads(settings, before, peer, Some(query), Some(answer), substream, now, after, actions),
    ensures
        ({
            let found = message::parsed_peers(answer@.closer_peers);
            let config = before.queries[query]->GetRecord_config;
            let asked = before.queries[query]->GetRecord_state;
            &&& announces(actions@, settings.local_key.preimage, found)
            &&& after.queries.contains_key(query)
            &&& after.queries[query] matches QueryView::GetRecord { config: c, state }
            &&& c == config
            &&& notes_answer(
                asked.peers,
                config.local_peer_id,
                config.target.bytes,
                peer,
                found,
                state.peers,
            )
            &&& keeps_record(asked.found, peer, answer, state.found)
        }),
        after.store == before.store,
        after.peers == before.peers,
        settings.update_mode == RoutingTableUpdateMode::Manual ==> after.buckets == before.buckets,
{
    let content = message::parsed_message(answer@)->Some_0;
    let found = message::parsed_peers(answer@.closer_peers);
    lemma_announces(actions@, settings.local_key.preimage, found);
    let said = choose|said: KademliaMessage|
        {
            &&& said@ == content
            &&& after.queries == before.queries.insert(
                query,
                #[trigger] before.queries[query].answered(peer, said, now),
            )
        };
    let config = before.queries[query]->GetRecord_config;
    let asked = before.queries[query]->GetRecord_state;
    lemma_notes_answer(
        asked.peers,
        config.local_peer_id,
        config.target.bytes,
        peer,
        said->GetRecord_peers@,
    );
    let state = after.queries[query]->GetRecord_state;
    assert(state.found.take(asked.found.len() as int) =~= asked.found);
}

/// Everything that is done on an input has its cause: a question is sent over a substream that has
/// opened, what is read is read from an inbound one, and the user is told of records only when they
/// have asked for one. No input by itself makes a query fail in the eyes of the user.
pub proof fn law_actions_have_their_cause<S>(
    settings: KademliaSettings,
    before: KademliaView,
    input: KademliaInput<S>,
    opened: Seq<Option<SubstreamId>>,
    now: Instant,
    after: KademliaView,
    actions: Vec<KademliaAction<S>>,
    i: int,
)
    requires
        0 <= i < actions@.len(),
        flows::leads(settings, before, input, opened, now, after, actions),
    ensures
        match actions@[i] {
            KademliaAction::Report(event) => match event {
                KademliaEvent::RoutingTableUpdate { .. } => input matches KademliaInput::Executor {
                    query_id,
                    result,
                    ..
                } && query_id is Some && result is ReadSuccess,
                KademliaEvent::GetRecordSuccess { query_id, .. } => input
                    matches KademliaInput::Command(
                    KademliaCommand::GetRecord { query_id: q, .. },
                ) && q == query_id,
                _ => false,
            },
            KademliaAction::SendRequest { peer, substream, .. } => input
                matches KademliaInput::Transport(
                TransportEvent::SubstreamOpened { peer: p, substream: s, direction, .. },
            ) && p == peer && s == substream && direction is Outbound,
            KademliaAction::SendMessage { peer, substream, .. } => {
                ||| (input matches KademliaInput::Transport(
                    TransportEvent::SubstreamOpened { peer: p, substream: s, direction, .. },
                ) && p == peer && s == substream && direction is Outbound)
                ||| (input matches KademliaInput::Executor {
                    peer: p,
                    query_id: None,
                    result: QueryResult::ReadSuccess { substream: s, .. },
                } && p == peer && s == substream)
            },
            KademliaAction::ReadMessage { peer, substream } => input
                matches KademliaInput::Transport(
                TransportEvent::SubstreamOpened { peer: p, substream: s, direction, .. },
            ) && p == peer && s == substream && direction is Inbound,
            KademliaAction::CloseSubstream { substream } => {
                ||| (input matches KademliaInput::Transport(
                    TransportEvent::SubstreamOpened { substream: s, direction, .. },
                ) && s == substream && direction is Outbound)
                ||| (input matches KademliaInput::Executor {
                    result: QueryResult::SendSuccess { substream: s },
                    ..
                } && s == substream)
            },
            KademliaAction::AddKnownAddress { .. } => {
                ||| input matches KademliaInput::Command(KademliaCommand::AddKnownPeer { .. })
                ||| (input matches KademliaInput::Executor { query_id, result, .. } && query_id
                    is Some && result is ReadSuccess)
            },
        },
{
    let list = node::node_actions(actions@);
    assert(list.len() == actions@.len());
    assert(list[i] == actions@[i]@);
}

/// A record that is to be sent over a substream to `peer` stays so until the substream opens or
/// fails, or the peer is lost.
pub proof fn law_pending_record_kept<S>(
    settings: KademliaSettings,
    before: KademliaView,
    peer: PeerId,
    id: SubstreamId,
    input: KademliaInput<S>,
    opened: Seq<Option<SubstreamId>>,
    now: Instant,
    after: KademliaView,
    actions: Vec<KademliaAction<S>>,
)
    requires
        before.peers.contains_key(peer),
        before.peers[peer].contains_key(id),
        match input {
            KademliaInput::Transport(event) => match event {
                TransportEvent::ConnectionClosed { peer: p } => p != peer,
                TransportEvent::SubstreamOpened { direction, .. } => direction
                    != Direction::Outbound(id),
                TransportEvent::SubstreamOpenFailure { .. } => false,
                _ => true,
            },
            KademliaInput::Executor { peer: p, result, .. } => p != peer || !(result is Timeout
                || result is SubstreamClosed),
            _ => true,
        },
        flows::leads(settings, before, input, opened, now, after, actions),
    ensures
        after.peers.contains_key(peer),
        after.peers[peer].contains_key(id),
        after.peers[peer][id] == before.peers[peer][id],
{
}

} // verus!
