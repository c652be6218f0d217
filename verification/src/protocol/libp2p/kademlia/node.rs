//! The Kademlia protocol of one node.

use super::config::Config;
use super::handle;
use super::handle::{
    group_records, KademliaCommand, KademliaEvent, KademliaEventView, Quorum, RecordsType,
    RecordsView, RoutingTableUpdateMode,
};
use super::message;
use super::message::KademliaMessage;
use super::query::engine;
use super::query::engine::{EngineSettings, QueryEngine, QueryView};
use super::query::{QueryAction, QueryActionView, QueryId};
use super::record::{PeerRecord, ProviderView, RecordView};
use super::routing_table;
use super::routing_table::RoutingTable;
use super::schema;
use super::store::{MemoryStore, MemoryStoreConfig, StoreView};
use super::types;
use super::types::{hash_key, ConnectionType, KademliaPeer, KademliaPeerView, Key};
use crate::address;
use crate::address::{copy_addresses, Multiaddr};
use crate::collections;
use crate::collections::{AssocMap, MapKey};
use crate::error::Error;
use crate::peer_id::PeerId;
use crate::protocol::{Direction, TransportEvent};
use crate::time::Instant;
use crate::types::SubstreamId;
use vstd::prelude::*;

verus! {

/// Parallelism factor.
pub const PARALLELISM_FACTOR: usize = 3;

/// Peer action.
#[derive(Debug, PartialEq, Eq)]
pub enum PeerAction {
    /// Send `FIND_NODE` message to peer.
    SendFindNode(QueryId),
    /// Send `PUT_VALUE` message to peer.
    SendPutValue(schema::Message),
}

/// Peer action, with the message by its view.
pub enum PeerActionView {
    /// Send `FIND_NODE` message to peer.
    SendFindNode(QueryId),
    /// Send `PUT_VALUE` message to peer.
    SendPutValue(schema::MessageView),
}

impl View for PeerAction {
    type V = PeerActionView;

    open spec fn view(&self) -> PeerActionView {
        match *self {
            PeerAction::SendFindNode(query) => PeerActionView::SendFindNode(query),
            PeerAction::SendPutValue(message) => PeerActionView::SendPutValue(message@),
        }
    }
}

/// A peer action by its view.
pub open spec fn action_view(action: PeerAction) -> PeerActionView {
    action@
}

/// The views of a list of peer actions.
pub open spec fn action_list(actions: Vec<PeerAction>) -> Seq<PeerActionView> {
    Seq::new(actions@.len(), |i: int| actions@[i]@)
}

/// Peer context.
pub struct PeerContext {
    /// Pending actions.
    pending_actions: AssocMap<SubstreamId, PeerAction>,
}

impl View for PeerContext {
    type V = Map<SubstreamId, PeerActionView>;

    closed spec fn view(&self) -> Map<SubstreamId, PeerActionView> {
        self.pending_actions@.map_values(|a: PeerAction| action_view(a))
    }
}

impl PeerContext {
    /// Create new [`PeerContext`].
    pub fn new() -> (r: Self)
        ensures
            r@ == Map::<SubstreamId, PeerActionView>::empty(),
    {
        let r = PeerContext { pending_actions: AssocMap::new() };
        assert(r@ =~= Map::<SubstreamId, PeerActionView>::empty());
        r
    }

    /// Add pending action for peer.
    pub fn add_pending_action(&mut self, substream_id: SubstreamId, action: PeerAction)
        ensures
            final(self)@ == old(self)@.insert(substream_id, action@),
    {
        proof {
            collections::lemma_map_values_insert(
                self.pending_actions@,
                |a: PeerAction| action_view(a),
                substream_id,
                action,
            );
        }
        self.pending_actions.insert(substream_id, action);
    }

    /// Takes the pending action of a substream.
    pub fn take_pending_action(&mut self, substream_id: &SubstreamId) -> (r: Option<PeerAction>)
        ensures
            final(self)@ == old(self)@.remove(*substream_id),
            match r {
                Some(action) => old(self)@.contains_key(*substream_id) && action@ == old(
                    self,
                )@[*substream_id],
                None => !old(self)@.contains_key(*substream_id),
            },
    {
        proof {
            collections::lemma_map_values_remove(
                self.pending_actions@,
                |a: PeerAction| action_view(a),
                *substream_id,
            );
        }
        self.pending_actions.remove(substream_id)
    }
}

/// What became of the attempt to reach a peer: a substream was opened, or else the peer is dialed,
/// or else it cannot be reached.
#[derive(Clone, Copy, Debug, PartialEq, Eq, Structural)]
pub enum Reached {
    /// A substream is being opened.
    Substream(SubstreamId),
    /// The peer is being dialed.
    Dialing,
    /// Neither worked.
    Unreachable,
}

/// What is to be done.
#[derive(Debug, PartialEq, Eq)]
pub enum KademliaAction<S> {
    /// Report an event to the user.
    Report(KademliaEvent),
    /// Send a message over a substream and read the answer.
    SendRequest {
        /// Peer ID.
        peer: PeerId,
        /// Query that the message belongs to.
        query: QueryId,
        /// Message.
        message: schema::Message,
        /// Substream.
        substream: S,
    },
    /// Send a message over a substream.
    SendMessage {
        /// Peer ID.
        peer: PeerId,
        /// Message.
        message: schema::Message,
        /// Substream.
        substream: S,
    },
    /// Read a message from a substream.
    ReadMessage {
        /// Peer ID.
        peer: PeerId,
        /// Substream.
        substream: S,
    },
    /// Close a substream.
    CloseSubstream {
        /// Substream.
        substream: S,
    },
    /// Tell the transport of addresses of a peer.
    AddKnownAddress {
        /// Peer ID.
        peer: PeerId,
        /// Addresses.
        addresses: Vec<Multiaddr>,
    },
}

/// What is to be done, with messages and addresses by their views.
pub enum KademliaActionView<S> {
    /// Report an event to the user.
    Report(KademliaEventView),
    /// Send a message over a substream and read the answer.
    SendRequest {
        /// Peer ID.
        peer: PeerId,
        /// Query that the message belongs to.
        query: QueryId,
        /// Message.
        message: schema::MessageView,
        /// Substream.
        substream: S,
    },
    /// Send a message over a substream.
    SendMessage {
        /// Peer ID.
        peer: PeerId,
        /// Message.
        message: schema::MessageView,
        /// Substream.
        substream: S,
    },
    /// Read a message from a substream.
    ReadMessage {
        /// Peer ID.
        peer: PeerId,
        /// Substream.
        substream: S,
    },
    /// Close a substream.
    CloseSubstream {
        /// Substream.
        substream: S,
    },
    /// Tell the transport of addresses of a peer.
    AddKnownAddress {
        /// Peer ID.
        peer: PeerId,
        /// Addresses.
        addresses: Seq<Seq<u8>>,
    },
}

impl<S> View for KademliaAction<S> {
    type V = KademliaActionView<S>;

    open spec fn view(&self) -> KademliaActionView<S> {
        match *self {
            KademliaAction::Report(event) => KademliaActionView::Report(event@),
            KademliaAction::SendRequest { peer, query, message, substream } =>
                KademliaActionView::SendRequest { peer, query, message: message@, substream },
            KademliaAction::SendMessage { peer, message, substream } =>
                KademliaActionView::SendMessage { peer, message: message@, substream },
            KademliaAction::ReadMessage { peer, substream } => KademliaActionView::ReadMessage {
                peer,
                substream,
            },
            KademliaAction::CloseSubstream { substream } => KademliaActionView::CloseSubstream {
                substream,
            },
            KademliaAction::AddKnownAddress { peer, addresses } =>
                KademliaActionView::AddKnownAddress {
                    peer,
                    addresses: address::address_views(addresses@),
                },
        }
    }
}

/// The views of a list of actions.
pub open spec fn node_actions<S>(actions: Seq<KademliaAction<S>>) -> Seq<KademliaActionView<S>> {
    Seq::new(actions.len(), |i: int| actions[i]@)
}

/// The node: what it knows of its peers, its queries, its store and its routing table.
pub struct KademliaView {
    /// Pending actions of connected peers.
    pub peers: Map<PeerId, Map<SubstreamId, PeerActionView>>,
    /// Pending outbound substreams.
    pub pending_substreams: Map<SubstreamId, PeerId>,
    /// Pending dials.
    pub pending_dials: Map<PeerId, Seq<PeerActionView>>,
    /// Queries.
    pub queries: Map<QueryId, QueryView>,
    /// Record store.
    pub store: StoreView,
    /// Nodes of each bucket of the routing table.
    pub buckets: Seq<Seq<KademliaPeerView>>,
}

/// What does not change in the life of a node.
pub struct KademliaSettings {
    /// Local key.
    pub local_key: Key<PeerId>,
    /// Replication factor.
    pub replication_factor: usize,
    /// Routing table update mode.
    pub update_mode: RoutingTableUpdateMode,
    /// Settings of the query engine.
    pub engine: EngineSettings,
    /// Configuration of the store.
    pub store: MemoryStoreConfig,
}

/// The queries after those in `failed` have lost `peer`.
pub open spec fn fail_all(
    queries: Map<QueryId, QueryView>,
    failed: Set<QueryId>,
    peer: PeerId,
) -> Map<QueryId, QueryView> {
    Map::new(
        |q: QueryId| queries.contains_key(q),
        |q: QueryId|
            if failed.contains(q) {
                queries[q].failed(peer)
            } else {
                queries[q]
            },
    )
}

proof fn lemma_fail_one(
    queries: Map<QueryId, QueryView>,
    failed: Set<QueryId>,
    peer: PeerId,
    query: QueryId,
)
    ensures
        ({
            let before = fail_all(queries, failed, peer);
            let after = if before.contains_key(query) {
                before.insert(query, before[query].failed(peer))
            } else {
                before
            };
            after == fail_all(queries, failed.insert(query), peer)
        }),
{
    let before = fail_all(queries, failed, peer);
    let after = if before.contains_key(query) {
        before.insert(query, before[query].failed(peer))
    } else {
        before
    };
    assert(queries[query].failed(peer).failed(peer) == queries[query].failed(peer));
    assert(after =~= fail_all(queries, failed.insert(query), peer));
}

/// The queries that pending actions belong to.
pub open spec fn queries_of(actions: Map<SubstreamId, PeerActionView>) -> Set<QueryId> {
    Set::new(
        |q: QueryId|
            exists|id: SubstreamId| #[trigger]
                actions.contains_key(id) && actions[id] == PeerActionView::SendFindNode(q),
    )
}

/// The queries that a list of actions belongs to.
pub open spec fn queries_in(actions: Seq<PeerActionView>) -> Set<QueryId> {
    Set::new(|q: QueryId| actions.contains(PeerActionView::SendFindNode(q)))
}

/// The actions of `actions` for which a substream could be opened, by that substream.
pub open spec fn opened_actions(
    actions: Seq<PeerActionView>,
    opened: Seq<Option<SubstreamId>>,
) -> Map<SubstreamId, PeerActionView>
    decreases actions.len(),
{
    if actions.len() == 0 {
        Map::empty()
    } else {
        let before = opened_actions(actions.drop_last(), opened);
        match opened[actions.len() - 1] {
            Some(id) => before.insert(id, actions.last()),
            None => before,
        }
    }
}

/// The queries of those actions for which no substream could be opened.
pub open spec fn unopened_queries(
    actions: Seq<PeerActionView>,
    opened: Seq<Option<SubstreamId>>,
) -> Set<QueryId>
    decreases actions.len(),
{
    if actions.len() == 0 {
        Set::empty()
    } else {
        let before = unopened_queries(actions.drop_last(), opened);
        match (opened[actions.len() - 1], actions.last()) {
            (None, PeerActionView::SendFindNode(q)) => before.insert(q),
            _ => before,
        }
    }
}

/// A known peer as it is added to the routing table.
pub struct KnownPeer {
    /// Peer ID.
    pub peer: PeerId,
    /// Addresses.
    pub addresses: Seq<Seq<u8>>,
    /// Connection.
    pub connection: ConnectionType,
}

/// What becomes of the buckets when known peers are added one after the other.
pub open spec fn known_peers_added(
    local_key: Key<PeerId>,
    before: Seq<Seq<KademliaPeerView>>,
    known: Seq<KnownPeer>,
    after: Seq<Seq<KademliaPeerView>>,
) -> bool
    decreases known.len(),
{
    if known.len() == 0 {
        after == before
    } else {
        exists|middle: Seq<Seq<KademliaPeerView>>|
            {
                &&& known_peers_added(local_key, before, known.drop_last(), middle)
                &&& #[trigger] routing_table::known_peer_added(
                    local_key,
                    middle,
                    known.last().peer,
                    known.last().addresses,
                    known.last().connection,
                    after,
                )
            }
    }
}

proof fn lemma_known_peer_more(
    local_key: Key<PeerId>,
    before: Seq<Seq<KademliaPeerView>>,
    known: Seq<KnownPeer>,
    middle: Seq<Seq<KademliaPeerView>>,
    after: Seq<Seq<KademliaPeerView>>,
)
    requires
        known.len() > 0,
        known_peers_added(local_key, before, known.drop_last(), middle),
        routing_table::known_peer_added(
            local_key,
            middle,
            known.last().peer,
            known.last().addresses,
            known.last().connection,
            after,
        ),
    ensures
        known_peers_added(local_key, before, known, after),
{
}

/// The peers of a list that are not the local node.
pub open spec fn others(local: PeerId, peers: Seq<KademliaPeerView>) -> Seq<KademliaPeerView> {
    peers.filter(|p: KademliaPeerView| p.peer != local)
}

/// The event that names discovered peers, and what the transport is told of them.
pub open spec fn update_actions<S>(found: Seq<KademliaPeerView>) -> Seq<KademliaActionView<S>> {
    seq![
        KademliaActionView::Report(
            KademliaEventView::RoutingTableUpdate {
                peers: Seq::new(found.len(), |i: int| found[i].peer),
            },
        ),
    ] + Seq::new(
        found.len(),
        |i: int|
            KademliaActionView::AddKnownAddress {
                peer: found[i].peer,
                addresses: found[i].addresses,
            },
    )
}

/// Discovered peers as they are added to the routing table.
pub open spec fn discovered(
    peers: Map<PeerId, Map<SubstreamId, PeerActionView>>,
    found: Seq<KademliaPeerView>,
) -> Seq<KnownPeer> {
    Seq::new(
        found.len(),
        |i: int|
            KnownPeer {
                peer: found[i].peer,
                addresses: found[i].addresses,
                connection: connection_of(peers, found[i].peer),
            },
    )
}

/// Whether a peer is connected, as the routing table notes it.
pub open spec fn connection_of(
    peers: Map<PeerId, Map<SubstreamId, PeerActionView>>,
    peer: PeerId,
) -> ConnectionType {
    if peers.contains_key(peer) {
        ConnectionType::Connected
    } else {
        ConnectionType::NotConnected
    }
}

/// What becomes of the buckets when peers have been discovered.
pub open spec fn table_updated(
    settings: KademliaSettings,
    before: KademliaView,
    found: Seq<KademliaPeerView>,
    after: Seq<Seq<KademliaPeerView>>,
) -> bool {
    if settings.update_mode == RoutingTableUpdateMode::Automatic {
        known_peers_added(
            settings.local_key,
            before.buckets,
            discovered(before.peers, found),
            after,
        )
    } else {
        after == before.buckets
    }
}

/// A peer after the attempt to reach it with an action.
pub open spec fn reached(
    view: KademliaView,
    peer: PeerId,
    action: PeerActionView,
    outcome: Reached,
) -> KademliaView {
    match outcome {
        Reached::Substream(id) => {
            let actions = if view.peers.contains_key(peer) {
                view.peers[peer]
            } else {
                Map::empty()
            };
            KademliaView {
                pending_substreams: view.pending_substreams.insert(id, peer),
                peers: view.peers.insert(peer, actions.insert(id, action)),
                ..view
            }
        },
        Reached::Dialing => {
            let actions = if view.pending_dials.contains_key(peer) {
                view.pending_dials[peer]
            } else {
                Seq::empty()
            };
            KademliaView {
                pending_dials: view.pending_dials.insert(peer, actions.push(action)),
                ..view
            }
        },
        Reached::Unreachable => view,
    }
}

/// Several peers after the attempt to reach each of them with the same action.
pub open spec fn reached_all(
    view: KademliaView,
    peers: Seq<KademliaPeer>,
    action: PeerActionView,
    outcomes: Seq<Reached>,
) -> KademliaView
    decreases peers.len(),
{
    if peers.len() == 0 {
        view
    } else {
        reached(
            reached_all(view, peers.drop_last(), action, outcomes),
            peers.last().peer,
            action,
            outcomes[peers.len() - 1],
        )
    }
}

/// The store after records have been offered one after the other.
pub open spec fn stored_all(
    store: StoreView,
    config: MemoryStoreConfig,
    records: Seq<PeerRecord>,
) -> StoreView
    decreases records.len(),
{
    if records.len() == 0 {
        store
    } else {
        stored_all(store, config, records.drop_last()).put(config, records.last().record@)
    }
}

/// A connected peer by its actions.
pub open spec fn context_view(context: PeerContext) -> Map<SubstreamId, PeerActionView> {
    context@
}

/// The Kademlia protocol of one node.
pub struct Kademlia {
    /// Local Kademlia key.
    local_key: Key<PeerId>,
    /// Connected peers,
    peers: AssocMap<PeerId, PeerContext>,
    /// Routing table.
    routing_table: RoutingTable,
    /// Replication factor.
    replication_factor: usize,
    /// Record store.
    store: MemoryStore,
    /// Pending outbound substreams.
    pending_substreams: AssocMap<SubstreamId, PeerId>,
    /// Pending dials.
    pending_dials: AssocMap<PeerId, Vec<PeerAction>>,
    /// Routing table update mode.
    update_mode: RoutingTableUpdateMode,
    /// Query engine.
    engine: QueryEngine,
}

impl View for Kademlia {
    type V = KademliaView;

    closed spec fn view(&self) -> KademliaView {
        KademliaView {
            peers: self.peers@.map_values(|c: PeerContext| context_view(c)),
            pending_substreams: self.pending_substreams@,
            pending_dials: self.pending_dials@.map_values(|a: Vec<PeerAction>| action_list(a)),
            queries: self.engine@,
            store: self.store@,
            buckets: self.routing_table.buckets(),
        }
    }
}

impl Kademlia {
    /// The routing table is the one of the local node.
    pub closed spec fn wf(self) -> bool {
        &&& self.routing_table.wf()
        &&& self.routing_table.spec_local_key() == self.local_key
    }

    /// What does not change.
    pub closed spec fn settings(self) -> KademliaSettings {
        KademliaSettings {
            local_key: self.local_key,
            replication_factor: self.replication_factor,
            update_mode: self.update_mode,
            engine: self.engine.settings(),
            store: self.store.config(),
        }
    }

    fn take_context(&mut self, peer: &PeerId) -> (r: Option<PeerContext>)
        requires
            old(self).wf(),
        ensures
            final(self).wf(),
            final(self).settings() == old(self).settings(),
            final(self)@ == (KademliaView { peers: old(self)@.peers.remove(*peer), ..old(self)@ }),
            match r {
                Some(context) => old(self)@.peers.contains_key(*peer) && context@ == old(
                    self,
                )@.peers[*peer],
                None => !old(self)@.peers.contains_key(*peer),
            },
    {
        proof {
            collections::lemma_map_values_remove(
                self.peers@,
                |c: PeerContext| context_view(c),
                *peer,
            );
        }
        self.peers.remove(peer)
    }

    fn put_context(&mut self, peer: PeerId, context: PeerContext)
        requires
            old(self).wf(),
        ensures
            final(self).wf(),
            final(self).settings() == old(self).settings(),
            final(self)@ == (KademliaView {
                peers: old(self)@.peers.insert(peer, context@),
                ..old(self)@
            }),
    {
        proof {
            collections::lemma_map_values_insert(
                self.peers@,
                |c: PeerContext| context_view(c),
                peer,
                context,
            );
        }
        self.peers.insert(peer, context);
    }

    fn take_dials(&mut self, peer: &PeerId) -> (r: Option<Vec<PeerAction>>)
        requires
            old(self).wf(),
        ensures
            final(self).wf(),
            final(self).settings() == old(self).settings(),
            final(self)@ == (KademliaView {
                pending_dials: old(self)@.pending_dials.remove(*peer),
                ..old(self)@
            }),
            match r {
                Some(actions) => old(self)@.pending_dials.contains_key(*peer) && action_list(
                    actions,
                ) == old(self)@.pending_dials[*peer],
                None => !old(self)@.pending_dials.contains_key(*peer),
            },
    {
        proof {
            collections::lemma_map_values_remove(
                self.pending_dials@,
                |a: Vec<PeerAction>| action_list(a),
                *peer,
            );
        }
        self.pending_dials.remove(peer)
    }

    fn put_dials(&mut self, peer: PeerId, actions: Vec<PeerAction>)
        requires
            old(self).wf(),
        ensures
            final(self).wf(),
            final(self).settings() == old(self).settings(),
            final(self)@ == (KademliaView {
                pending_dials: old(self)@.pending_dials.insert(peer, action_list(actions)),
                ..old(self)@
            }),
    {
        proof {
            collections::lemma_map_values_insert(
                self.pending_dials@,
                |a: Vec<PeerAction>| action_list(a),
                peer,
                actions,
            );
        }
        self.pending_dials.insert(peer, actions);
    }

    fn fail_query(&mut self, query: QueryId, peer: PeerId)
        requires
            old(self).wf(),
        ensures
            final(self).wf(),
            final(self).settings() == old(self).settings(),
            final(self)@ == (KademliaView {
                queries: if old(self)@.queries.contains_key(query) {
                    old(self)@.queries.insert(query, old(self)@.queries[query].failed(peer))
                } else {
                    old(self)@.queries
                },
                ..old(self)@
            }),
    {
        self.engine.register_response_failure(query, peer);
    }

    /// Whether `peer` is connected.
    pub fn is_connected(&self, peer: &PeerId) -> (r: bool)
        ensures
            r == self@.peers.contains_key(*peer),
    {
        self.peers.contains_key(peer)
    }

    /// The number of substreams that a new connection to `peer` asks for.
    pub fn pending_dial_count(&self, peer: &PeerId) -> (r: usize)
        ensures
            r == (if self@.pending_dials.contains_key(*peer) {
                self@.pending_dials[*peer].len()
            } else {
                0
            }),
    {
        match self.pending_dials.get(peer) {
            Some(actions) => actions.len(),
            None => 0,
        }
    }

    /// Whether a message that comes as the answer to an active query is of the kind that the query
    /// asks for.
    pub fn expects_answer(&self, query_id: Option<QueryId>, message: &Option<schema::Message>) -> (r:
        bool)
        ensures
            r == answer_fits(self@, query_id, *message),
    {
        match (query_id, message) {
            (Some(query), Some(message)) => {
                if message.message_type == schema::FIND_NODE {
                    self.engine.asks_for_peers(&query)
                } else if message.message_type == schema::GET_VALUE {
                    self.engine.asks_for_record(&query)
                } else {
                    true
                }
            },
            _ => true,
        }
    }

    /// Connection established to remote peer.
    ///
    /// `opened` is what the transport answered to the request for a substream, for each action that
    /// has been waiting for the connection, in order. A peer that was known already changes
    /// nothing.
    pub fn on_connection_established(
        &mut self,
        peer: PeerId,
        opened: Vec<Option<SubstreamId>>,
    ) -> (r: Result<(), Error>)
        requires
            old(self).wf(),
            enough_opened(old(self)@, peer, opened@),
        ensures
            final(self).wf(),
            final(self).settings() == old(self).settings(),
            (r is Err) == old(self)@.peers.contains_key(peer),
            r matches Err(e) ==> e == Error::PeerAlreadyExists(peer),
            established(old(self).settings(), old(self)@, peer, opened@, final(self)@),
    {
        if self.is_connected(&peer) {
            return Err(Error::PeerAlreadyExists(peer));
        }
        self.routing_table.set_connection(peer, ConnectionType::Connected);
        let ghost queries = self@.queries;
        let mut context = PeerContext::new();
        let mut rest = match self.take_dials(&peer) {
            Some(actions) => actions,
            None => {
                let none: Vec<PeerAction> = Vec::new();
                assert(action_list(none) =~= Seq::empty());
                assert(old(self)@.pending_dials.remove(peer) =~= old(self)@.pending_dials);
                none
            },
        };
        // go over all pending actions and save the state to `PeerContext` from which it will be
        // later queried when the substream opens
        let ghost actions = action_list(rest);
        let mut i: usize = 0;
        let n: usize = rest.len();
        proof {
            assert(actions.take(0) =~= Seq::empty());
            assert(fail_all(queries, Set::empty(), peer) =~= queries);
            assert(actions.skip(0) =~= actions);
        }
        let ghost before = self@;
        while i < n
            invariant
                self.wf(),
                self.settings() == old(self).settings(),
                i <= n,
                n == actions.len(),
                actions.len() > 0 ==> opened@.len() == actions.len(),
                action_list(rest) == actions.skip(i as int),
                context@ == opened_actions(actions.take(i as int), opened@),
                self@ == (KademliaView {
                    queries: fail_all(
                        queries,
                        unopened_queries(actions.take(i as int), opened@),
                        peer,
                    ),
                    ..before
                }),
            decreases n - i,
        {
            let ghost list = action_list(rest);
            assert(list.len() == actions.len() - i);
            assert(rest.len() == list.len());
            let action = rest.remove(0);
            proof {
                assert(list[0] == action@);
                assert(action@ == actions[i as int]);
                assert(action_list(rest) =~= actions.skip(i + 1)) by {
                    assert(action_list(rest) =~= list.skip(1));
                }
                assert(actions.take(i + 1).drop_last() =~= actions.take(i as int));
                assert(actions.take(i + 1).last() == action@);
            }
            match opened[i] {
                Some(substream_id) => {
                    context.add_pending_action(substream_id, action);
                },
                None => {
                    match action {
                        PeerAction::SendFindNode(query_id) => {
                            proof {
                                lemma_fail_one(
                                    queries,
                                    unopened_queries(actions.take(i as int), opened@),
                                    peer,
                                    query_id,
                                );
                            }
                            self.fail_query(query_id, peer);
                        },
                        _ => {},
                    }
                },
            }
            i += 1;
        }
        assert(actions.take(n as int) =~= actions);
        self.put_context(peer, context);
        Ok(())
    }

    /// Disconnect peer from `Kademlia`.
    ///
    /// Peer is disconnected either because the substream was detected closed
    /// or because the connection was closed.
    ///
    /// The peer is kept in the routing table but its connection state is set
    /// as `NotConnected`, meaning it can be evicted from a k-bucket if another
    /// peer that shares the bucket connects.
    pub fn disconnect_peer(&mut self, peer: PeerId, query: Option<QueryId>)
        requires
            old(self).wf(),
        ensures
            final(self).wf(),
            final(self).settings() == old(self).settings(),
            disconnected(old(self).settings(), old(self)@, peer, query, final(self)@),
    {
        let ghost queries = self@.queries;
        let ghost mut failed: Set<QueryId> = Set::empty();
        assert(fail_all(queries, failed, peer) =~= queries);
        match query {
            Some(query) => {
                proof {
                    lemma_fail_one(queries, failed, peer, query);
                    failed = failed.insert(query);
                }
                self.fail_query(query, peer);
            },
            None => {},
        }
        let ghost named = failed;
        match self.take_context(&peer) {
            Some(context) => {
                let ghost actions = context@;
                let ghost before = self@;
                let mut pending = context.pending_actions;
                let n: usize = pending.len();
                let ghost all = pending@;
                let ghost order = pending.order();
                proof {
                    assert(actions =~= all.map_values(|a: PeerAction| action_view(a)));
                    assert forall|id: SubstreamId| all.contains_key(id) <==> order.contains(id) by {
                        assert(order.to_set().contains(id) <==> order.contains(id));
                    }
                    assert(order.skip(0) =~= order);
                }
                let mut i: usize = 0;
                while i < n
                    invariant
                        self.wf(),
                        self.settings() == old(self).settings(),
                        i <= n,
                        n == order.len(),
                        order.no_duplicates(),
                        forall|id: SubstreamId| all.contains_key(id) <==> order.contains(id),
                        pending.order() == order.skip(i as int),
                        forall|id: SubstreamId|
                            #![trigger pending@.contains_key(id)]
                            pending@.contains_key(id) ==> all.contains_key(id) && pending@[id]
                                == all[id],
                        forall|q: QueryId|
                            failed.contains(q) <==> named.contains(q) || exists|j: int|
                                0 <= j < i && all[#[trigger] order[j]]@
                                    == PeerActionView::SendFindNode(q),
                        self@ == (KademliaView {
                            queries: fail_all(queries, failed, peer),
                            ..before
                        }),
                    decreases n - i,
                {
                    let ghost before_failed = failed;
                    match pending.pop_front() {
                        Some((id, action)) => {
                            proof {
                                assert(order.skip(i as int)[0] == order[i as int]);
                                assert(order.skip(i as int).skip(1) =~= order.skip(i + 1));
                                assert(action == all[order[i as int]]);
                            }
                            match action {
                                PeerAction::SendFindNode(query_id) => {
                                    proof {
                                        lemma_fail_one(queries, failed, peer, query_id);
                                        failed = failed.insert(query_id);
                                    }
                                    self.fail_query(query_id, peer);
                                },
                                _ => {},
                            }
                            proof {
                                assert forall|q: QueryId|
                                    failed.contains(q) <==> named.contains(q) || exists|j: int|
                                        0 <= j < i + 1 && all[#[trigger] order[j]]@
                                            == PeerActionView::SendFindNode(q) by {
                                    if before_failed.contains(q) && !named.contains(q) {
                                        let j = choose|j: int|
                                            0 <= j < i && all[#[trigger] order[j]]@
                                                == PeerActionView::SendFindNode(q);
                                        assert(all[order[j]]@ == PeerActionView::SendFindNode(q));
                                    }
                                    if action@ == PeerActionView::SendFindNode(q) {
                                        assert(all[order[i as int]]@
                                            == PeerActionView::SendFindNode(q));
                                    }
                                    if exists|j: int|
                                        0 <= j < i + 1 && all[#[trigger] order[j]]@
                                            == PeerActionView::SendFindNode(q) {
                                        let j = choose|j: int|
                                            0 <= j < i + 1 && all[#[trigger] order[j]]@
                                                == PeerActionView::SendFindNode(q);
                                        if j < i {
                                            assert(before_failed.contains(q));
                                        }
                                    }
                                }
                            }
                        },
                        None => {
                            assert(false);
                        },
                    }
                    i += 1;
                }
                proof {
                    let expected = named.union(queries_of(actions));
                    assert(failed =~= expected) by {
                        assert forall|q: QueryId| failed.contains(q) <==> expected.contains(q) by {
                            if failed.contains(q) && !named.contains(q) {
                                let j = choose|j: int|
                                    0 <= j < n && all[#[trigger] order[j]]@
                                        == PeerActionView::SendFindNode(q);
                                assert(order.contains(order[j]));
                                assert(actions.contains_key(order[j]));
                            }
                            if queries_of(actions).contains(q) {
                                let id = choose|id: SubstreamId| #[trigger]
                                    actions.contains_key(id) && actions[id]
                                        == PeerActionView::SendFindNode(q);
                                assert(order.contains(id));
                                let j = choose|j: int| 0 <= j < order.len() && order[j] == id;
                                assert(all[order[j]]@ == PeerActionView::SendFindNode(q));
                            }
                        }
                    }
                }
            },
            None => {
                assert(old(self)@.peers.remove(peer) =~= old(self)@.peers);
            },
        }
        self.routing_table.set_connection(peer, ConnectionType::NotConnected);
    }

    /// Local node opened a substream to remote node.
    ///
    /// What has been pending on the substream is sent over it; a substream that nothing is pending
    /// on is closed.
    pub fn on_outbound_substream<S>(
        &mut self,
        peer: PeerId,
        substream_id: SubstreamId,
        substream: S,
    ) -> (r: Result<KademliaAction<S>, Error>)
        requires
            old(self).wf(),
        ensures
            final(self).wf(),
            final(self).settings() == old(self).settings(),
            final(self)@ == outbound_opened(old(self)@, peer, substream_id),
            match r {
                Ok(action) => {
                    &&& old(self)@.peers.contains_key(peer)
                    &&& action@ == outbound_action(old(self)@, peer, substream_id, substream)
                },
                Err(e) => {
                    &&& !old(self)@.peers.contains_key(peer)
                    &&& e == Error::PeerDoesntExist(peer)
                },
            },
    {
        let ghost before = self@;
        let _ = self.pending_substreams.remove(&substream_id);
        let mut context = match self.take_context(&peer) {
            Some(context) => context,
            None => {
                assert(before.peers.remove(peer) =~= before.peers);
                return Err(Error::PeerDoesntExist(peer));
            },
        };
        let pending = context.take_pending_action(&substream_id);
        let ghost actions = context@;
        self.put_context(peer, context);
        assert(before.peers.remove(peer).insert(peer, actions) =~= before.peers.insert(
            peer,
            actions,
        ));
        match pending {
            None => Ok(KademliaAction::CloseSubstream { substream }),
            Some(PeerAction::SendFindNode(query)) => match self.engine.next_peer_action(
                &query,
                &peer,
            ) {
                Some(QueryAction::SendMessage { query, peer, message }) => Ok(
                    KademliaAction::SendRequest { peer, query, message, substream },
                ),
                // query finished while the substream was being opened
                _ => Ok(KademliaAction::CloseSubstream { substream }),
            },
            Some(PeerAction::SendPutValue(message)) => Ok(
                KademliaAction::SendMessage { peer, message, substream },
            ),
        }
    }

    /// Remote opened a substream to local node.
    pub fn on_inbound_substream<S>(&self, peer: PeerId, substream: S) -> (r: KademliaAction<S>)
        ensures
            r@ == (KademliaActionView::ReadMessage { peer, substream }),
    {
        KademliaAction::ReadMessage { peer, substream }
    }

    /// Update routing table if the routing table update mode was set to automatic.
    ///
    /// Inform user about the potential routing table, allowing them to update it manually if
    /// the mode was set to manual.
    pub fn update_routing_table<S>(&mut self, peers: &Vec<KademliaPeer>) -> (r: Vec<
        KademliaAction<S>,
    >)
        requires
            old(self).wf(),
        ensures
            final(self).wf(),
            final(self).settings() == old(self).settings(),
            ({
                let found = others(
                    old(self).settings().local_key.preimage,
                    types::peer_views(peers@),
                );
                &&& node_actions(r@) == update_actions::<S>(found)
                &&& table_updated(old(self).settings(), old(self)@, found, final(self)@.buckets)
                &&& final(self)@ == (KademliaView { buckets: final(self)@.buckets, ..old(self)@ })
            }),
    {
        let found = other_peers(&self.local_key.preimage, peers);
        let ghost views = types::peer_views(found@);
        let mut names: Vec<PeerId> = Vec::new();
        let mut i: usize = 0;
        while i < found.len()
            invariant
                i <= found.len(),
                names.len() == i,
                forall|j: int| 0 <= j < i ==> #[trigger] names@[j] == found@[j].peer,
            decreases found.len() - i,
        {
            names.push(found[i].peer);
            i += 1;
        }
        assert(names@ =~= Seq::new(views.len(), |i: int| views[i].peer));
        let mut actions: Vec<KademliaAction<S>> = Vec::new();
        // inform user about the routing table update, regardless of what the routing table update
        // mode is
        actions.push(KademliaAction::Report(KademliaEvent::RoutingTableUpdate { peers: names }));
        let automatic = match self.update_mode {
            RoutingTableUpdateMode::Automatic => true,
            RoutingTableUpdateMode::Manual => false,
        };
        let ghost known = discovered(self@.peers, views);
        let ghost before = self@;
        let mut i: usize = 0;
        assert(known.take(0) =~= Seq::empty());
        while i < found.len()
            invariant
                self.wf(),
                self.settings() == old(self).settings(),
                before == old(self)@,
                i <= found.len(),
                views == types::peer_views(found@),
                known == discovered(before.peers, views),
                automatic == (self.settings().update_mode == RoutingTableUpdateMode::Automatic),
                self@ == (KademliaView { buckets: self@.buckets, ..before }),
                if automatic {
                    known_peers_added(
                        self.settings().local_key,
                        before.buckets,
                        known.take(i as int),
                        self@.buckets,
                    )
                } else {
                    self@.buckets == before.buckets
                },
                actions.len() == i + 1,
                forall|j: int|
                    0 <= j < i + 1 ==> (#[trigger] actions@[j])@ == update_actions::<S>(views)[j],
            decreases found.len() - i,
        {
            let peer = found[i].peer;
            actions.push(
                KademliaAction::AddKnownAddress {
                    peer,
                    addresses: copy_addresses(&found[i].addresses),
                },
            );
            if automatic {
                let connection = if self.is_connected(&peer) {
                    ConnectionType::Connected
                } else {
                    ConnectionType::NotConnected
                };
                let addresses = copy_addresses(&found[i].addresses);
                proof {
                    assert(known.take(i + 1).drop_last() =~= known.take(i as int));
                    assert(known.take(i + 1).last() == known[i as int]);
                }
                let ghost middle = self@.buckets;
                self.routing_table.add_known_peer(peer, addresses, connection);
                proof {
                    lemma_known_peer_more(
                        self.settings().local_key,
                        before.buckets,
                        known.take(i + 1),
                        middle,
                        self@.buckets,
                    );
                }
            }
            i += 1;
        }
        proof {
            assert(known.take(i as int) =~= known);
            assert(node_actions(actions@) =~= update_actions::<S>(views));
        }
        actions
    }

    /// Handle received message, at the current time.
    ///
    /// `message` is what the bytes were decoded to, if they could be.
    pub fn on_message_received<S>(
        &mut self,
        peer: PeerId,
        query_id: Option<QueryId>,
        message: Option<schema::Message>,
        substream: S,
    ) -> (r: Result<Vec<KademliaAction<S>>, Error>)
        requires
            old(self).wf(),
            answer_fits(old(self)@, query_id, message),
        ensures
            final(self).wf(),
            final(self).settings() == old(self).settings(),
            exists|now: Instant| #[trigger]
                message_received(
                    old(self).settings(),
                    old(self)@,
                    peer,
                    query_id,
                    message,
                    substream,
                    now,
                    final(self)@,
                    r,
                ),
    {
        let now = Instant::now();
        self.on_message_received_at(peer, query_id, message, substream, now)
    }

    /// Handle received message, at `now`.
    pub fn on_message_received_at<S>(
        &mut self,
        peer: PeerId,
        query_id: Option<QueryId>,
        message: Option<schema::Message>,
        substream: S,
        now: Instant,
    ) -> (r: Result<Vec<KademliaAction<S>>, Error>)
        requires
            old(self).wf(),
            answer_fits(old(self)@, query_id, message),
        ensures
            final(self).wf(),
            final(self).settings() == old(self).settings(),
            message_received(
                old(self).settings(),
                old(self)@,
                peer,
                query_id,
                message,
                substream,
                now,
                final(self)@,
                r,
            ),
    {
        let ghost before = self@;
        let message = match message {
            Some(message) => message,
            None => {
                return Err(Error::InvalidData);
            },
        };
        let parsed = match KademliaMessage::from_message(message) {
            Some(parsed) => parsed,
            None => {
                return Err(Error::InvalidData);
            },
        };
        let ghost content = parsed@;
        let mut actions: Vec<KademliaAction<S>> = Vec::new();
        match parsed {
            KademliaMessage::FindNode { target, peers } => match query_id {
                Some(query_id) => {
                    // update routing table and inform user about the update
                    let actions = self.update_routing_table::<S>(&peers);
                    let answer = KademliaMessage::FindNode { target, peers };
                    assert(answer@ == content);
                    self.engine.register_response_at(query_id, peer, answer, now);
                    assert(query_answered(before.queries, query_id, peer, content, now, self@.queries));
                    return Ok(actions);
                },
                None => {
                    let key = Key::from_bytes(hash_key(&target), ());
                    let closest = self.routing_table.closest(&key, self.replication_factor);
                    let message = KademliaMessage::find_node_response(target, &closest);
                    actions.push(KademliaAction::SendMessage { peer, message, substream });
                    let ghost found = types::peer_views(closest@);
                    assert(routing_table::is_closest(
                        routing_table::all_peers(before.buckets),
                        types::place_of(target@),
                        self.settings().replication_factor as nat,
                        found,
                    ));
                    assert(node_actions(actions@) =~= seq![
                        KademliaActionView::SendMessage {
                            peer,
                            message: message::find_node_response_message(target@, found),
                            substream,
                        },
                    ]);
                    assert(find_node_answer(
                        self.settings(),
                        before,
                        peer,
                        target@,
                        substream,
                        node_actions(actions@),
                    ));
                },
            },
            KademliaMessage::PutValue { record } => {
                self.store.put(record);
                assert(node_actions(actions@) =~= Seq::empty());
            },
            KademliaMessage::GetRecord { key, record, peers } => match (query_id, key) {
                (Some(query_id), key) => {
                    // update routing table and inform user about the update
                    let actions = self.update_routing_table::<S>(&peers);
                    let answer = KademliaMessage::GetRecord { key, record, peers };
                    assert(answer@ == content);
                    self.engine.register_response_at(query_id, peer, answer, now);
                    assert(query_answered(before.queries, query_id, peer, content, now, self@.queries));
                    return Ok(actions);
                },
                (None, Some(key)) => {
                    let value = self.store.get_at(&key, now);
                    let place = Key::from_bytes(hash_key(key.as_bytes()), ());
                    let closest = self.routing_table.closest(&place, self.replication_factor);
                    let message = KademliaMessage::get_value_response(&key, &closest, value);
                    actions.push(KademliaAction::SendMessage { peer, message, substream });
                    let ghost found = types::peer_views(closest@);
                    assert(routing_table::is_closest(
                        routing_table::all_peers(before.buckets),
                        types::place_of(key@),
                        self.settings().replication_factor as nat,
                        found,
                    ));
                    assert(node_actions(actions@) =~= seq![
                        KademliaActionView::SendMessage {
                            peer,
                            message: message::get_value_response_message(
                                key@,
                                found,
                                before.store.get(key@, now),
                            ),
                            substream,
                        },
                    ]);
                    assert(get_value_answer(
                        self.settings(),
                        before,
                        peer,
                        key@,
                        substream,
                        now,
                        node_actions(actions@),
                    ));
                },
                (None, None) => {
                    assert(node_actions(actions@) =~= Seq::empty());
                },
            },
        }
        Ok(actions)
    }

    /// Failed to open substream to remote peer.
    pub fn on_substream_open_failure(&mut self, substream_id: SubstreamId)
        requires
            old(self).wf(),
        ensures
            final(self).wf(),
            final(self).settings() == old(self).settings(),
            open_failed(old(self).settings(), old(self)@, substream_id, final(self)@),
    {
        let ghost before = self@;
        let peer = match self.pending_substreams.remove(&substream_id) {
            Some(peer) => peer,
            None => {
                assert(before.pending_substreams.remove(substream_id)
                    =~= before.pending_substreams);
                return;
            },
        };
        match self.take_context(&peer) {
            Some(mut context) => {
                let query = match context.take_pending_action(&substream_id) {
                    Some(PeerAction::SendFindNode(query)) => Some(query),
                    _ => None,
                };
                let ghost actions = context@;
                self.put_context(peer, context);
                assert(before.peers.remove(peer).insert(peer, actions) =~= before.peers.insert(
                    peer,
                    actions,
                ));
                self.disconnect_peer(peer, query);
            },
            None => {
                assert(before.peers.remove(peer) =~= before.peers);
            },
        }
    }

    /// Handle dial failure.
    pub fn on_dial_failure(&mut self, peer: PeerId)
        requires
            old(self).wf(),
        ensures
            final(self).wf(),
            final(self).settings() == old(self).settings(),
            final(self)@ == dial_failed(old(self)@, peer),
    {
        let ghost queries = self@.queries;
        let mut rest = match self.take_dials(&peer) {
            Some(actions) => actions,
            None => {
                assert(old(self)@.pending_dials.remove(peer) =~= old(self)@.pending_dials);
                return;
            },
        };
        let ghost actions = action_list(rest);
        let ghost before = self@;
        let n: usize = rest.len();
        let mut i: usize = 0;
        proof {
            assert(queries_in(actions.take(0)) =~= Set::empty());
            assert(fail_all(queries, Set::empty(), peer) =~= queries);
            assert(actions.skip(0) =~= actions);
        }
        while i < n
            invariant
                self.wf(),
                self.settings() == old(self).settings(),
                i <= n,
                n == actions.len(),
                action_list(rest) == actions.skip(i as int),
                self@ == (KademliaView {
                    queries: fail_all(queries, queries_in(actions.take(i as int)), peer),
                    ..before
                }),
            decreases n - i,
        {
            let ghost list = action_list(rest);
            assert(list.len() == actions.len() - i);
            assert(rest.len() == list.len());
            let action = rest.remove(0);
            let ghost taken = actions.take(i as int);
            proof {
                assert(list[0] == action@);
                assert(action@ == actions[i as int]);
                assert(action_list(rest) =~= actions.skip(i + 1)) by {
                    assert(action_list(rest) =~= list.skip(1));
                }
                assert(actions.take(i + 1) =~= taken.push(action@));
                lemma_queries_in_push(taken, action@);
            }
            match action {
                PeerAction::SendFindNode(query_id) => {
                    proof {
                        lemma_fail_one(queries, queries_in(taken), peer, query_id);
                    }
                    self.fail_query(query_id, peer);
                },
                _ => {},
            }
            i += 1;
        }
        assert(actions.take(n as int) =~= actions);
    }

    /// Notes what became of the attempt to reach `peer` with an action.
    fn reach(&mut self, peer: PeerId, action: PeerAction, outcome: Reached)
        requires
            old(self).wf(),
        ensures
            final(self).wf(),
            final(self).settings() == old(self).settings(),
            final(self)@ == reached(old(self)@, peer, action@, outcome),
    {
        let ghost before = self@;
        match outcome {
            Reached::Substream(id) => {
                self.pending_substreams.insert(id, peer);
                let mut context = match self.take_context(&peer) {
                    Some(context) => context,
                    None => PeerContext::new(),
                };
                context.add_pending_action(id, action);
                let ghost actions = context@;
                self.put_context(peer, context);
                assert(before.peers.remove(peer).insert(peer, actions) =~= before.peers.insert(
                    peer,
                    actions,
                ));
            },
            Reached::Dialing => {
                let mut actions = match self.take_dials(&peer) {
                    Some(actions) => actions,
                    None => {
                        let none: Vec<PeerAction> = Vec::new();
                        assert(action_list(none) =~= Seq::empty());
                        none
                    },
                };
                let ghost list = action_list(actions);
                actions.push(action);
                assert(action_list(actions) =~= list.push(action@));
                self.put_dials(peer, actions);
                assert(before.pending_dials.remove(peer).insert(peer, list.push(action@))
                    =~= before.pending_dials.insert(peer, list.push(action@)));
            },
            Reached::Unreachable => {},
        }
    }

    /// Handle next query action.
    ///
    /// `outcomes` are what became of the attempts to reach the peers that
    /// [`peers_to_reach`] names, in order.
    pub fn on_query_action<S>(&mut self, action: QueryAction, outcomes: Vec<Reached>) -> (r: Vec<
        KademliaAction<S>,
    >)
        requires
            old(self).wf(),
            !(action@ is QuerySucceeded),
            outcomes@.len() == to_reach(action@).len(),
        ensures
            final(self).wf(),
            final(self).settings() == old(self).settings(),
            (final(self)@, node_actions(r@)) == query_action_handled::<S>(
                old(self).settings(),
                old(self)@,
                action@,
                outcomes@,
            ),
    {
        let ghost before = self@;
        let ghost handled = query_action_handled::<S>(self.settings(), before, action@, outcomes@);
        let mut actions: Vec<KademliaAction<S>> = Vec::new();
        match action {
            QueryAction::SendMessage { query, peer, .. } => {
                match outcomes[0] {
                    Reached::Unreachable => {
                        self.fail_query(query, peer);
                    },
                    outcome => {
                        self.reach(peer, PeerAction::SendFindNode(query), outcome);
                    },
                }
            },
            QueryAction::FindNodeQuerySucceeded { target, peers, query } => {
                let ghost found = peers@;
                let mut peers = peers;
                let mut list: Vec<(PeerId, Vec<Multiaddr>)> = Vec::new();
                assert(found.skip(0) =~= found);
                while peers.len() > 0
                    invariant
                        list.len() + peers.len() == found.len(),
                        peers@ == found.skip(list.len() as int),
                        forall|i: int|
                            0 <= i < list.len() ==> (#[trigger] list@[i]).0 == found[i].peer
                                && list@[i].1 == found[i].addresses,
                    decreases peers.len(),
                {
                    let info = peers.remove(0);
                    assert(info == found[list.len() as int]);
                    list.push((info.peer, info.addresses));
                    assert(peers@ =~= found.skip(list.len() as int));
                }
                let event = KademliaEvent::FindNodeSuccess { target, query_id: query, peers: list };
                assert(event@->FindNodeSuccess_peers =~= found_addresses(found));
                actions.push(KademliaAction::Report(event));
            },
            QueryAction::PutRecordToFoundNodes { record, peers } => {
                let message = KademliaMessage::put_value(&record);
                let ghost put = PeerActionView::SendPutValue(message@);
                let mut i: usize = 0;
                assert(peers@.take(0) =~= Seq::empty());
                while i < peers.len()
                    invariant
                        self.wf(),
                        self.settings() == old(self).settings(),
                        i <= peers.len(),
                        outcomes.len() == peers.len(),
                        put == PeerActionView::SendPutValue(message@),
                        self@ == reached_all(before, peers@.take(i as int), put, outcomes@),
                    decreases peers.len() - i,
                {
                    proof {
                        assert(peers@.take(i + 1).drop_last() =~= peers@.take(i as int));
                        assert(peers@.take(i + 1).last() == peers@[i as int]);
                    }
                    self.reach(
                        peers[i].peer,
                        PeerAction::SendPutValue(message.clone()),
                        outcomes[i],
                    );
                    i += 1;
                }
                assert(peers@.take(i as int) =~= peers@);
            },
            QueryAction::GetRecordQueryDone { query_id, records } => {
                let mut i: usize = 0;
                assert(records@.take(0) =~= Seq::empty());
                while i < records.len()
                    invariant
                        self.wf(),
                        self.settings() == old(self).settings(),
                        i <= records.len(),
                        self@ == (KademliaView {
                            store: stored_all(
                                before.store,
                                self.settings().store,
                                records@.take(i as int),
                            ),
                            ..before
                        }),
                    decreases records.len() - i,
                {
                    proof {
                        assert(records@.take(i + 1).drop_last() =~= records@.take(i as int));
                        assert(records@.take(i + 1).last() == records@[i as int]);
                    }
                    self.store.put(records[i].record.clone());
                    i += 1;
                }
                assert(records@.take(i as int) =~= records@);
                actions.push(
                    KademliaAction::Report(
                        KademliaEvent::GetRecordSuccess {
                            query_id,
                            records: RecordsType::Network(group_records(records)),
                        },
                    ),
                );
            },
            QueryAction::QueryFailed { query } => {
                actions.push(
                    KademliaAction::Report(KademliaEvent::QueryFailed { query_id: query }),
                );
            },
            QueryAction::QuerySucceeded { .. } => {
                assert(false);
            },
        }
        assert(node_actions(actions@) =~= handled.1);
        actions
    }

    /// The next action of the queries, if one of them acts.
    pub fn next_query_action(&mut self) -> (r: Option<QueryAction>)
        requires
            old(self).wf(),
        ensures
            final(self).wf(),
            final(self).settings() == old(self).settings(),
            final(self)@ == (KademliaView { queries: final(self)@.queries, ..old(self)@ }),
            match r {
                Some(action) => {
                    &&& !(action@ is QuerySucceeded)
                    &&& exists|query: QueryId| #[trigger]
                        engine::acted(
                            old(self)@.queries,
                            query,
                            final(self)@.queries,
                            action@,
                        )
                },
                None => {
                    &&& final(self)@ == old(self)@
                    &&& forall|query: QueryId| #[trigger]
                        old(self)@.queries.contains_key(query) ==> old(
                            self,
                        )@.queries[query].next_step() is Wait
                },
            },
    {
        self.engine.next_action()
    }

    /// Handle a command of the user, at the current time.
    pub fn on_command<S>(&mut self, command: KademliaCommand) -> (r: Vec<KademliaAction<S>>)
        requires
            old(self).wf(),
        ensures
            final(self).wf(),
            final(self).settings() == old(self).settings(),
            exists|now: Instant| #[trigger]
                command_handled(
                    old(self).settings(),
                    old(self)@,
                    command,
                    now,
                    final(self)@,
                    node_actions(r@),
                ),
    {
        let now = Instant::now();
        self.on_command_at(command, now)
    }

    /// Handle a command of the user, at `now`.
    pub fn on_command_at<S>(&mut self, command: KademliaCommand, now: Instant) -> (r: Vec<
        KademliaAction<S>,
    >)
        requires
            old(self).wf(),
        ensures
            final(self).wf(),
            final(self).settings() == old(self).settings(),
            command_handled(
                old(self).settings(),
                old(self)@,
                command,
                now,
                final(self)@,
                node_actions(r@),
            ),
    {
        let ghost before = self@;
        let mut actions: Vec<KademliaAction<S>> = Vec::new();
        assert(node_actions(actions@) =~= Seq::empty());
        match command {
            KademliaCommand::FindNode { peer, query_id } => {
                let key = Key::from_peer(peer);
                let closest = self.routing_table.closest(&key, self.replication_factor);
                let ghost found = closest@;
                assert(closest_known(
                    self.settings(),
                    before,
                    types::place_of(peer.spec_bytes()),
                    found,
                ));
                self.engine.start_find_node(query_id, peer, closest);
            },
            KademliaCommand::PutRecord { record, query_id } => {
                let key = Key::new(record.key.clone());
                self.store.put(record.clone());
                let closest = self.routing_table.closest(&key, self.replication_factor);
                let ghost found = closest@;
                assert(closest_known(
                    self.settings(),
                    before,
                    types::place_of(record.key@),
                    found,
                ));
                self.engine.start_put_record(query_id, record, closest);
            },
            KademliaCommand::PutRecordToPeers { record, query_id, peers, update_local_store } => {
                if update_local_store {
                    self.store.put(record.clone());
                }
                let found = self.look_up_all(&peers);
                self.engine.start_put_record_to_peers(query_id, record, found);
            },
            KademliaCommand::GetRecord { key, quorum, query_id } => {
                let stored = match self.store.get_at(&key, now) {
                    Some(record) => Some(record.clone()),
                    None => None,
                };
                let one = match quorum {
                    Quorum::One => true,
                    _ => false,
                };
                match stored {
                    Some(record) if one => {
                        actions.push(
                            KademliaAction::Report(
                                KademliaEvent::GetRecordSuccess {
                                    query_id,
                                    records: RecordsType::LocalStore(record),
                                },
                            ),
                        );
                        assert(node_actions(actions@) =~= seq![
                            local_record::<S>(query_id, record@),
                        ]);
                    },
                    stored => {
                        let place = Key::new(key.clone());
                        let closest = self.routing_table.closest(&place, self.replication_factor);
                        let ghost found = closest@;
                        assert(closest_known(self.settings(), before, types::place_of(key@), found));
                        let count: usize = if stored.is_some() {
                            1
                        } else {
                            0
                        };
                        self.engine.start_get_record(query_id, key, closest, quorum, count);
                    },
                }
            },
            KademliaCommand::AddKnownPeer { peer, addresses } => {
                let connection = if self.is_connected(&peer) {
                    ConnectionType::Connected
                } else {
                    ConnectionType::NotConnected
                };
                let copy = copy_addresses(&addresses);
                self.routing_table.add_known_peer(peer, copy, connection);
                actions.push(KademliaAction::AddKnownAddress { peer, addresses });
                assert(node_actions(actions@) =~= seq![
                    KademliaActionView::<S>::AddKnownAddress {
                        peer,
                        addresses: address::address_views(addresses@),
                    },
                ]);
            },
        }
        actions
    }

    fn look_up_all(&mut self, peers: &Vec<PeerId>) -> (r: Vec<KademliaPeer>)
        requires
            old(self).wf(),
        ensures
            final(self).wf(),
            final(self).settings() == old(self).settings(),
            final(self)@ == (KademliaView { buckets: final(self)@.buckets, ..old(self)@ }),
            all_looked_up(
                old(self).settings().local_key,
                old(self)@.buckets,
                peers@,
                final(self)@.buckets,
                types::peer_views(r@),
            ),
    {
        let mut r: Vec<KademliaPeer> = Vec::new();
        let ghost before = self@;
        let mut i: usize = 0;
        assert(peers@.take(0) =~= Seq::empty());
        assert(types::peer_views(r@) =~= Seq::empty());
        while i < peers.len()
            invariant
                self.wf(),
                self.settings() == old(self).settings(),
                i <= peers.len(),
                before == old(self)@,
                self@ == (KademliaView { buckets: self@.buckets, ..before }),
                all_looked_up(
                    self.settings().local_key,
                    before.buckets,
                    peers@.take(i as int),
                    self@.buckets,
                    types::peer_views(r@),
                ),
            decreases peers.len() - i,
        {
            let ghost middle = self@.buckets;
            let ghost held = types::peer_views(r@);
            let found = self.routing_table.look_up(peers[i]);
            let ghost view = types::optional_peer_view(found);
            match found {
                Some(peer) => {
                    r.push(peer);
                    assert(types::peer_views(r@) =~= held.push(peer@));
                },
                None => {},
            }
            proof {
                assert(peers@.take(i + 1).drop_last() =~= peers@.take(i as int));
                assert(peers@.take(i + 1).last() == peers@[i as int]);
                lemma_look_up_more(
                    self.settings().local_key,
                    before.buckets,
                    peers@.take(i + 1),
                    middle,
                    held,
                    self@.buckets,
                    view,
                );
            }
            i += 1;
        }
        assert(peers@.take(i as int) =~= peers@);
        r
    }

    /// Create new [`Kademlia`].
    ///
    /// The known peers of the configuration enter the routing table, and the transport is told of
    /// their addresses.
    pub fn new<S>(local_peer_id: PeerId, config: Config) -> (r: (Self, Vec<KademliaAction<S>>))
        ensures
            r.0.wf(),
            r.0.settings().local_key.is_of_peer(local_peer_id),
            r.0.settings().replication_factor == config.replication_factor,
            r.0.settings().update_mode == config.update_mode,
            r.0.settings().store == (MemoryStoreConfig {
                max_records: 1024,
                max_record_size_bytes: 66_560,
                max_provider_keys: 1024,
                max_provider_addresses: 30,
                max_providers_per_key: 20,
            }),
            r.0.settings().engine == (EngineSettings {
                local_peer_id,
                replication_factor: config.replication_factor,
                parallelism_factor: PARALLELISM_FACTOR,
            }),
            r.0@.peers == Map::<PeerId, Map<SubstreamId, PeerActionView>>::empty(),
            r.0@.pending_substreams == Map::<SubstreamId, PeerId>::empty(),
            r.0@.pending_dials == Map::<PeerId, Seq<PeerActionView>>::empty(),
            r.0@.queries == Map::<QueryId, QueryView>::empty(),
            r.0@.store.records == Map::<Seq<u8>, RecordView>::empty(),
            r.0@.store.providers == Map::<Seq<u8>, Seq<ProviderView>>::empty(),
            known_peers_added(
                r.0.settings().local_key,
                Seq::new(
                    routing_table::NUM_BUCKETS as nat,
                    |i: int| Seq::<KademliaPeerView>::empty(),
                ),
                bootstrap(config.known_peers@),
                r.0@.buckets,
            ),
            node_actions(r.1@) == Seq::new(
                config.known_peers@.len(),
                |i: int|
                    KademliaActionView::<S>::AddKnownAddress {
                        peer: config.known_peers@[i].0,
                        addresses: address::address_views(config.known_peers@[i].1@),
                    },
            ),
    {
        let local_key = Key::from_peer(local_peer_id);
        let mut routing_table = RoutingTable::new(local_key);
        let mut actions: Vec<KademliaAction<S>> = Vec::new();
        let ghost empty = routing_table.buckets();
        let ghost known = bootstrap(config.known_peers@);
        let mut i: usize = 0;
        assert(known.take(0) =~= Seq::empty());
        while i < config.known_peers.len()
            invariant
                routing_table.wf(),
                routing_table.spec_local_key() == local_key,
                i <= config.known_peers.len(),
                known == bootstrap(config.known_peers@),
                known_peers_added(
                    local_key,
                    empty,
                    known.take(i as int),
                    routing_table.buckets(),
                ),
                actions.len() == i,
                forall|j: int|
                    0 <= j < i ==> (#[trigger] actions@[j])@ == (KademliaActionView::<
                        S,
                    >::AddKnownAddress {
                        peer: config.known_peers@[j].0,
                        addresses: address::address_views(config.known_peers@[j].1@),
                    }),
            decreases config.known_peers.len() - i,
        {
            let peer = config.known_peers[i].0;
            let ghost middle = routing_table.buckets();
            routing_table.add_known_peer(
                peer,
                copy_addresses(&config.known_peers[i].1),
                ConnectionType::NotConnected,
            );
            proof {
                assert(known.take(i + 1).drop_last() =~= known.take(i as int));
                assert(known.take(i + 1).last() == known[i as int]);
                lemma_known_peer_more(
                    local_key,
                    empty,
                    known.take(i + 1),
                    middle,
                    routing_table.buckets(),
                );
            }
            actions.push(
                KademliaAction::AddKnownAddress {
                    peer,
                    addresses: copy_addresses(&config.known_peers[i].1),
                },
            );
            i += 1;
        }
        assert(known.take(i as int) =~= known);
        let node = Kademlia {
            local_key,
            peers: AssocMap::new(),
            routing_table,
            replication_factor: config.replication_factor,
            store: MemoryStore::new(),
            pending_substreams: AssocMap::new(),
            pending_dials: AssocMap::new(),
            update_mode: config.update_mode,
            engine: QueryEngine::new(local_peer_id, config.replication_factor, PARALLELISM_FACTOR),
        };
        assert(node@.peers =~= Map::<PeerId, Map<SubstreamId, PeerActionView>>::empty());
        assert(node@.pending_dials =~= Map::<PeerId, Seq<PeerActionView>>::empty());
        assert(node_actions(actions@) =~= Seq::new(
            config.known_peers@.len(),
            |i: int|
                KademliaActionView::<S>::AddKnownAddress {
                    peer: config.known_peers@[i].0,
                    addresses: address::address_views(config.known_peers@[i].1@),
                },
        ));
        (node, actions)
    }

    /// Handle what happens next, at the current time.
    ///
    /// `opened` are the answers of the transport to the requests for substreams that a new
    /// connection makes. What goes wrong with one input does not stop the node; only the end of
    /// one of its channels does.
    pub fn on_input<S>(
        &mut self,
        input: KademliaInput<S>,
        opened: Vec<Option<SubstreamId>>,
    ) -> (r: Result<Vec<KademliaAction<S>>, Error>)
        requires
            old(self).wf(),
            input_admitted(old(self)@, input, opened@),
        ensures
            final(self).wf(),
            final(self).settings() == old(self).settings(),
            exists|now: Instant| #[trigger]
                input_handled(
                    old(self).settings(),
                    old(self)@,
                    input,
                    opened@,
                    now,
                    final(self)@,
                    r,
                ),
    {
        let now = Instant::now();
        self.on_input_at(input, opened, now)
    }

    /// Handle what happens next, at `now`.
    pub fn on_input_at<S>(
        &mut self,
        input: KademliaInput<S>,
        opened: Vec<Option<SubstreamId>>,
        now: Instant,
    ) -> (r: Result<Vec<KademliaAction<S>>, Error>)
        requires
            old(self).wf(),
            input_admitted(old(self)@, input, opened@),
        ensures
            final(self).wf(),
            final(self).settings() == old(self).settings(),
            input_handled(
                old(self).settings(),
                old(self)@,
                input,
                opened@,
                now,
                final(self)@,
                r,
            ),
    {
        let mut actions: Vec<KademliaAction<S>> = Vec::new();
        assert(node_actions(actions@) =~= Seq::empty());
        match input {
            KademliaInput::Transport(event) => match event {
                TransportEvent::ConnectionEstablished { peer, .. } => {
                    let _ = self.on_connection_established(peer, opened);
                },
                TransportEvent::ConnectionClosed { peer } => {
                    self.disconnect_peer(peer, None);
                },
                TransportEvent::SubstreamOpened { peer, direction, substream, .. } => {
                    match direction {
                        Direction::Inbound => {
                            actions.push(self.on_inbound_substream(peer, substream));
                            assert(node_actions(actions@) =~= seq![
                                KademliaActionView::ReadMessage { peer, substream },
                            ]);
                        },
                        Direction::Outbound(id) => {
                            match self.on_outbound_substream(peer, id, substream) {
                                Ok(action) => {
                                    actions.push(action);
                                    assert(node_actions(actions@) =~= seq![action@]);
                                },
                                Err(_) => {},
                            }
                        },
                    }
                },
                TransportEvent::SubstreamOpenFailure { substream, .. } => {
                    self.on_substream_open_failure(substream);
                },
                TransportEvent::DialFailure { peer, .. } => {
                    self.on_dial_failure(peer);
                },
            },
            KademliaInput::Executor { peer, query_id, result } => match result {
                QueryResult::SendSuccess { substream } => {
                    actions.push(KademliaAction::CloseSubstream { substream });
                    assert(node_actions(actions@) =~= seq![
                        KademliaActionView::CloseSubstream { substream },
                    ]);
                },
                QueryResult::ReadSuccess { substream, message } => {
                    match self.on_message_received_at(peer, query_id, message, substream, now) {
                        Ok(answer) => {
                            return Ok(answer);
                        },
                        Err(_) => {},
                    }
                },
                QueryResult::SubstreamClosed => {
                    self.disconnect_peer(peer, query_id);
                },
                QueryResult::Timeout => {
                    self.disconnect_peer(peer, query_id);
                },
            },
            KademliaInput::Command(command) => {
                return Ok(self.on_command_at(command, now));
            },
            KademliaInput::Exhausted => {
                return Err(Error::EssentialTaskClosed);
            },
        }
        Ok(actions)
    }
}

/// Known peers of a configuration as they enter the routing table.
pub open spec fn bootstrap(known: Seq<(PeerId, Vec<Multiaddr>)>) -> Seq<KnownPeer> {
    Seq::new(
        known.len(),
        |i: int|
            KnownPeer {
                peer: known[i].0,
                addresses: address::address_views(known[i].1@),
                connection: ConnectionType::NotConnected,
            },
    )
}

/// What became of a message that was sent or read.
#[derive(Debug, PartialEq, Eq)]
pub enum QueryResult<S> {
    /// Message was sent to remote peer successfully.
    SendSuccess {
        /// Substream.
        substream: S,
    },
    /// Message was read from the remote peer successfully.
    ReadSuccess {
        /// Substream.
        substream: S,
        /// Read message, if it could be decoded.
        message: Option<schema::Message>,
    },
    /// Timeout while reading a response from the substream.
    Timeout,
    /// Substream was closed while reading/writing message to remote peer.
    SubstreamClosed,
}

/// What happens next in the life of the node.
#[derive(Debug, PartialEq, Eq)]
pub enum KademliaInput<S> {
    /// An event of the transport.
    Transport(TransportEvent<S>),
    /// A message has been sent or read, or not.
    Executor {
        /// Peer ID.
        peer: PeerId,
        /// Query that the message belongs to.
        query_id: Option<QueryId>,
        /// Outcome.
        result: QueryResult<S>,
    },
    /// A command of the user.
    Command(KademliaCommand),
    /// One of the channels is closed.
    Exhausted,
}

/// Whether an input can come in this state.
pub open spec fn input_admitted<S>(
    view: KademliaView,
    input: KademliaInput<S>,
    opened: Seq<Option<SubstreamId>>,
) -> bool {
    match input {
        KademliaInput::Transport(TransportEvent::ConnectionEstablished { peer, .. }) =>
            enough_opened(view, peer, opened),
        KademliaInput::Executor {
            query_id,
            result: QueryResult::ReadSuccess { message, .. },
            ..
        } => answer_fits(view, query_id, message),
        _ => true,
    }
}

/// What an input makes of the node, and what is done about it.
pub open spec fn input_handled<S>(
    settings: KademliaSettings,
    before: KademliaView,
    input: KademliaInput<S>,
    opened: Seq<Option<SubstreamId>>,
    now: Instant,
    after: KademliaView,
    result: Result<Vec<KademliaAction<S>>, Error>,
) -> bool {
    let none = Seq::<KademliaActionView<S>>::empty();
    match (input, result) {
        (KademliaInput::Exhausted, Err(e)) => e == Error::EssentialTaskClosed && after == before,
        (KademliaInput::Transport(event), Ok(actions)) => {
            let actions = node_actions(actions@);
            match event {
                TransportEvent::ConnectionEstablished { peer, .. } => {
                    &&& actions == none
                    &&& established(settings, before, peer, opened, after)
                },
                TransportEvent::ConnectionClosed { peer } => {
                    &&& actions == none
                    &&& disconnected(settings, before, peer, None, after)
                },
                TransportEvent::SubstreamOpened { peer, direction, substream, .. } =>
                    match direction {
                        Direction::Inbound => {
                            &&& actions == seq![KademliaActionView::ReadMessage { peer, substream }]
                            &&& after == before
                        },
                        Direction::Outbound(id) => {
                            &&& after == outbound_opened(before, peer, id)
                            &&& actions == if before.peers.contains_key(peer) {
                                seq![outbound_action(before, peer, id, substream)]
                            } else {
                                none
                            }
                        },
                    },
                TransportEvent::SubstreamOpenFailure { substream, .. } => {
                    &&& actions == none
                    &&& open_failed(settings, before, substream, after)
                },
                TransportEvent::DialFailure { peer, .. } => {
                    &&& actions == none
                    &&& after == dial_failed(before, peer)
                },
            }
        },
        (KademliaInput::Executor { peer, query_id, result }, Ok(actions)) => match result {
            QueryResult::SendSuccess { substream } => {
                &&& node_actions(actions@) == seq![KademliaActionView::CloseSubstream { substream }]
                &&& after == before
            },
            QueryResult::ReadSuccess { substream, message } => {
                ||| message_received(
                    settings,
                    before,
                    peer,
                    query_id,
                    message,
                    substream,
                    now,
                    after,
                    Ok::<Vec<KademliaAction<S>>, Error>(actions),
                )
                ||| {
                    &&& node_actions(actions@) == none
                    &&& message_received(
                        settings,
                        before,
                        peer,
                        query_id,
                        message,
                        substream,
                        now,
                        after,
                        Err::<Vec<KademliaAction<S>>, Error>(Error::InvalidData),
                    )
                }
            },
            QueryResult::Timeout => {
                &&& node_actions(actions@) == none
                &&& disconnected(settings, before, peer, query_id, after)
            },
            QueryResult::SubstreamClosed => {
                &&& node_actions(actions@) == none
                &&& disconnected(settings, before, peer, query_id, after)
            },
        },
        (KademliaInput::Command(command), Ok(actions)) => command_handled(
            settings,
            before,
            command,
            now,
            after,
            node_actions(actions@),
        ),
        _ => false,
    }
}

/// What is found for several peers one after the other, and what becomes of the buckets.
pub open spec fn all_looked_up(
    local_key: Key<PeerId>,
    before: Seq<Seq<KademliaPeerView>>,
    peers: Seq<PeerId>,
    after: Seq<Seq<KademliaPeerView>>,
    found: Seq<KademliaPeerView>,
) -> bool
    decreases peers.len(),
{
    if peers.len() == 0 {
        after == before && found == Seq::<KademliaPeerView>::empty()
    } else {
        exists|
            middle: Seq<Seq<KademliaPeerView>>,
            held: Seq<KademliaPeerView>,
            last: Option<KademliaPeerView>,
        |
            {
                &&& all_looked_up(local_key, before, peers.drop_last(), middle, held)
                &&& #[trigger] routing_table::looked_up(
                    local_key,
                    middle,
                    peers.last(),
                    after,
                    last,
                )
                &&& found == #[trigger] with_found(held, last)
            }
    }
}

/// A list with one more peer, if one was found.
pub open spec fn with_found(
    held: Seq<KademliaPeerView>,
    last: Option<KademliaPeerView>,
) -> Seq<KademliaPeerView> {
    match last {
        Some(peer) => held.push(peer),
        None => held,
    }
}

proof fn lemma_look_up_more(
    local_key: Key<PeerId>,
    before: Seq<Seq<KademliaPeerView>>,
    peers: Seq<PeerId>,
    middle: Seq<Seq<KademliaPeerView>>,
    held: Seq<KademliaPeerView>,
    after: Seq<Seq<KademliaPeerView>>,
    last: Option<KademliaPeerView>,
)
    requires
        peers.len() > 0,
        all_looked_up(local_key, before, peers.drop_last(), middle, held),
        routing_table::looked_up(local_key, middle, peers.last(), after, last),
    ensures
        all_looked_up(local_key, before, peers, after, with_found(held, last)),
{
}

/// The peers that an action of the queries is to reach, in order.
pub open spec fn to_reach(action: QueryActionView) -> Seq<PeerId> {
    match action {
        QueryActionView::SendMessage { peer, .. } => seq![peer],
        QueryActionView::PutRecordToFoundNodes { peers, .. } => Seq::new(
            peers.len(),
            |i: int| peers[i].peer,
        ),
        _ => Seq::empty(),
    }
}

/// The peers that an action of the queries is to reach, in order.
pub fn peers_to_reach(action: &QueryAction) -> (r: Vec<PeerId>)
    ensures
        r@ == to_reach(action@),
{
    let mut r: Vec<PeerId> = Vec::new();
    match action {
        QueryAction::SendMessage { peer, .. } => {
            r.push(*peer);
        },
        QueryAction::PutRecordToFoundNodes { peers, .. } => {
            let mut i: usize = 0;
            while i < peers.len()
                invariant
                    i <= peers.len(),
                    r.len() == i,
                    forall|j: int| 0 <= j < i ==> #[trigger] r@[j] == peers@[j].peer,
                decreases peers.len() - i,
            {
                r.push(peers[i].peer);
                i += 1;
            }
        },
        _ => {},
    }
    assert(r@ =~= to_reach(action@));
    r
}

/// Found peers with their addresses.
pub open spec fn found_addresses(peers: Seq<KademliaPeer>) -> Seq<(PeerId, Seq<Seq<u8>>)> {
    Seq::new(
        peers.len(),
        |i: int| (peers[i].peer, address::address_views(peers[i].addresses@)),
    )
}

/// What an action of the queries makes of the node, and what is done about it.
pub open spec fn query_action_handled<S>(
    settings: KademliaSettings,
    before: KademliaView,
    action: QueryActionView,
    outcomes: Seq<Reached>,
) -> (KademliaView, Seq<KademliaActionView<S>>) {
    match action {
        QueryActionView::SendMessage { query, peer, .. } => (
            if outcomes[0] is Unreachable {
                KademliaView {
                    queries: if before.queries.contains_key(query) {
                        before.queries.insert(query, before.queries[query].failed(peer))
                    } else {
                        before.queries
                    },
                    ..before
                }
            } else {
                reached(before, peer, PeerActionView::SendFindNode(query), outcomes[0])
            },
            Seq::empty(),
        ),
        QueryActionView::FindNodeQuerySucceeded { query, target, peers } => (
            before,
            seq![
                KademliaActionView::Report(
                    KademliaEventView::FindNodeSuccess {
                        query_id: query,
                        target,
                        peers: found_addresses(peers),
                    },
                ),
            ],
        ),
        QueryActionView::PutRecordToFoundNodes { record, peers } => (
            reached_all(
                before,
                peers,
                PeerActionView::SendPutValue(message::put_value_message(record@)),
                outcomes,
            ),
            Seq::empty(),
        ),
        QueryActionView::GetRecordQueryDone { query_id, records } => (
            KademliaView {
                store: stored_all(before.store, settings.store, records),
                ..before
            },
            seq![
                KademliaActionView::Report(
                    KademliaEventView::GetRecordSuccess {
                        query_id,
                        records: RecordsView::Network(handle::grouped(records)),
                    },
                ),
            ],
        ),
        QueryActionView::QueryFailed { query } => (
            before,
            seq![KademliaActionView::Report(KademliaEventView::QueryFailed { query_id: query })],
        ),
        QueryActionView::QuerySucceeded { .. } => (before, Seq::empty()),
    }
}

/// The report that a record was found in the local store.
pub open spec fn local_record<S>(query_id: QueryId, record: RecordView) -> KademliaActionView<S> {
    KademliaActionView::Report(
        KademliaEventView::GetRecordSuccess { query_id, records: RecordsView::LocalStore(record) },
    )
}

/// Whether `peers` are those of the routing table that are closest to `place`, as many as the
/// replication factor says.
pub open spec fn closest_known(
    settings: KademliaSettings,
    view: KademliaView,
    place: super::u256::U256,
    peers: Seq<KademliaPeer>,
) -> bool {
    routing_table::is_closest(
        routing_table::all_peers(view.buckets),
        place,
        settings.replication_factor as nat,
        types::peer_views(peers),
    )
}

/// What a command makes of the node, and what is done about it.
pub open spec fn command_handled<S>(
    settings: KademliaSettings,
    before: KademliaView,
    command: KademliaCommand,
    now: Instant,
    after: KademliaView,
    actions: Seq<KademliaActionView<S>>,
) -> bool {
    match command {
        KademliaCommand::FindNode { peer, query_id } => {
            &&& actions == Seq::<KademliaActionView<S>>::empty()
            &&& exists|peers: Seq<KademliaPeer>|
                {
                    &&& #[trigger] closest_known(
                        settings,
                        before,
                        types::place_of(peer.spec_bytes()),
                        peers,
                    )
                    &&& after == (KademliaView {
                        queries: before.queries.insert(
                            query_id,
                            engine::find_node_query(settings.engine, query_id, peer, peers),
                        ),
                        ..before
                    })
                }
        },
        KademliaCommand::PutRecord { record, query_id } => {
            &&& actions == Seq::<KademliaActionView<S>>::empty()
            &&& after == (KademliaView {
                queries: before.queries.insert(query_id, after.queries[query_id]),
                store: before.store.put(settings.store, record@),
                ..before
            })
            &&& exists|peers: Seq<KademliaPeer>|
                {
                    &&& #[trigger] closest_known(
                        settings,
                        before,
                        types::place_of(record.key@),
                        peers,
                    )
                    &&& engine::put_record_query(
                        settings.engine,
                        query_id,
                        record,
                        peers,
                        after.queries[query_id],
                    )
                }
        },
        KademliaCommand::PutRecordToPeers { record, query_id, peers, update_local_store } => {
            &&& actions == Seq::<KademliaActionView<S>>::empty()
            &&& after == (KademliaView {
                queries: before.queries.insert(query_id, after.queries[query_id]),
                store: if update_local_store {
                    before.store.put(settings.store, record@)
                } else {
                    before.store
                },
                buckets: after.buckets,
                ..before
            })
            &&& after.queries[query_id] matches QueryView::PutRecordToPeers { record: r, peers: p }
            &&& r == record
            &&& all_looked_up(
                settings.local_key,
                before.buckets,
                peers@,
                after.buckets,
                types::peer_views(p),
            )
        },
        KademliaCommand::GetRecord { key, quorum, query_id } => match before.store.get(key@, now) {
            Some(record) if quorum is One => {
                &&& actions == seq![local_record::<S>(query_id, record)]
                &&& after == (KademliaView {
                    store: before.store.after_get(key@, now),
                    ..before
                })
            },
            stored => {
                &&& actions == Seq::<KademliaActionView<S>>::empty()
                &&& after == (KademliaView {
                    queries: before.queries.insert(query_id, after.queries[query_id]),
                    store: before.store.after_get(key@, now),
                    ..before
                })
                &&& exists|peers: Seq<KademliaPeer>|
                    {
                        &&& #[trigger] closest_known(settings, before, types::place_of(key@), peers)
                        &&& engine::get_record_query(
                            settings.engine,
                            query_id,
                            key@,
                            peers,
                            quorum,
                            if stored is Some {
                                1
                            } else {
                                0
                            },
                            after.queries[query_id],
                        )
                    }
            },
        },
        KademliaCommand::AddKnownPeer { peer, addresses } => {
            &&& actions == seq![
                KademliaActionView::<S>::AddKnownAddress {
                    peer,
                    addresses: address::address_views(addresses@),
                },
            ]
            &&& routing_table::known_peer_added(
                settings.local_key,
                before.buckets,
                peer,
                address::address_views(addresses@),
                connection_of(before.peers, peer),
                after.buckets,
            )
            &&& after == (KademliaView { buckets: after.buckets, ..before })
        },
    }
}

/// The node after an outbound substream has opened: nothing is pending on it any more.
pub open spec fn outbound_opened(
    before: KademliaView,
    peer: PeerId,
    id: SubstreamId,
) -> KademliaView {
    KademliaView {
        pending_substreams: before.pending_substreams.remove(id),
        peers: if before.peers.contains_key(peer) {
            before.peers.insert(peer, before.peers[peer].remove(id))
        } else {
            before.peers
        },
        ..before
    }
}

/// What is done with an outbound substream of a connected peer.
pub open spec fn outbound_action<S>(
    before: KademliaView,
    peer: PeerId,
    id: SubstreamId,
    substream: S,
) -> KademliaActionView<S> {
    if !before.peers[peer].contains_key(id) {
        KademliaActionView::CloseSubstream { substream }
    } else {
        match before.peers[peer][id] {
            PeerActionView::SendPutValue(message) => KademliaActionView::SendMessage {
                peer,
                message,
                substream,
            },
            PeerActionView::SendFindNode(query) => if awaits(before.queries, query, peer) {
                match before.queries[query].request(peer) {
                    QueryActionView::SendMessage { query, peer, message } =>
                        KademliaActionView::SendRequest { peer, query, message, substream },
                    _ => KademliaActionView::CloseSubstream { substream },
                }
            } else {
                KademliaActionView::CloseSubstream { substream }
            },
        }
    }
}

/// Whether a query waits for an answer of `peer`.
pub open spec fn awaits(
    queries: Map<QueryId, QueryView>,
    query: QueryId,
    peer: PeerId,
) -> bool {
    &&& queries.contains_key(query)
    &&& queries[query].peers() matches Some(peers)
    &&& peers.pending.contains_key(peer)
}

fn other_peers(local: &PeerId, peers: &Vec<KademliaPeer>) -> (r: Vec<KademliaPeer>)
    ensures
        types::peer_views(r@) == others(*local, types::peer_views(peers@)),
{
    let ghost views = types::peer_views(peers@);
    let ghost keep = |p: KademliaPeerView| p.peer != *local;
    let mut r: Vec<KademliaPeer> = Vec::new();
    let mut i: usize = 0;
    proof {
        reveal(Seq::filter);
        assert(views.take(0) =~= Seq::<KademliaPeerView>::empty());
        assert(types::peer_views(r@) =~= views.take(0).filter(keep));
    }
    while i < peers.len()
        invariant
            i <= peers.len(),
            views == types::peer_views(peers@),
            keep == (|p: KademliaPeerView| p.peer != *local),
            types::peer_views(r@) == views.take(i as int).filter(keep),
        decreases peers.len() - i,
    {
        let ghost before = types::peer_views(r@);
        proof {
            reveal(Seq::filter);
            assert(views.take(i + 1).drop_last() =~= views.take(i as int));
            assert(views.take(i + 1).last() == peers@[i as int]@);
        }
        if !peers[i].peer.same(local) {
            let peer = peers[i].clone();
            r.push(peer);
            assert(types::peer_views(r@) =~= before.push(peer@));
        }
        i += 1;
    }
    assert(views.take(i as int) =~= views);
    r
}

/// Whether a message that comes as the answer to an active query is of the kind that the query
/// asks for.
pub open spec fn answer_fits(
    view: KademliaView,
    query_id: Option<QueryId>,
    message: Option<schema::Message>,
) -> bool {
    match (query_id, message) {
        (Some(query), Some(message)) => match message::parsed_message(message@) {
            Some(message::KademliaMessageView::PutValue { .. }) => true,
            Some(content) => view.queries.contains_key(query) ==> view.queries[query].expects(
                content,
            ),
            None => true,
        },
        _ => true,
    }
}

/// The queries after `peer` has answered one of them.
pub open spec fn query_answered(
    before: Map<QueryId, QueryView>,
    query: QueryId,
    peer: PeerId,
    content: message::KademliaMessageView,
    now: Instant,
    after: Map<QueryId, QueryView>,
) -> bool {
    if before.contains_key(query) {
        exists|answer: KademliaMessage|
            {
                &&& answer@ == content
                &&& after == before.insert(
                    query,
                    #[trigger] before[query].answered(peer, answer, now),
                )
            }
    } else {
        after == before
    }
}

/// The answer to a search: the peers of the routing table that are closest to `target`.
pub open spec fn find_node_answer<S>(
    settings: KademliaSettings,
    view: KademliaView,
    peer: PeerId,
    target: Seq<u8>,
    substream: S,
    actions: Seq<KademliaActionView<S>>,
) -> bool {
    exists|closest: Seq<KademliaPeerView>|
        {
            &&& #[trigger] routing_table::is_closest(
                routing_table::all_peers(view.buckets),
                types::place_of(target),
                settings.replication_factor as nat,
                closest,
            )
            &&& actions == seq![
                KademliaActionView::SendMessage {
                    peer,
                    message: message::find_node_response_message(target, closest),
                    substream,
                },
            ]
        }
}

/// The answer to a request for a record: the record, if the store has it, and the peers of the
/// routing table that are closest to its key.
pub open spec fn get_value_answer<S>(
    settings: KademliaSettings,
    view: KademliaView,
    peer: PeerId,
    key: Seq<u8>,
    substream: S,
    now: Instant,
    actions: Seq<KademliaActionView<S>>,
) -> bool {
    exists|closest: Seq<KademliaPeerView>|
        {
            &&& #[trigger] routing_table::is_closest(
                routing_table::all_peers(view.buckets),
                types::place_of(key),
                settings.replication_factor as nat,
                closest,
            )
            &&& actions == seq![
                KademliaActionView::SendMessage {
                    peer,
                    message: message::get_value_response_message(
                        key,
                        closest,
                        view.store.get(key, now),
                    ),
                    substream,
                },
            ]
        }
}

/// What the answer to a query, with the peers that it names, makes of the node.
pub open spec fn answer_handled<S>(
    settings: KademliaSettings,
    before: KademliaView,
    peer: PeerId,
    query: QueryId,
    content: message::KademliaMessageView,
    peers: Seq<KademliaPeerView>,
    now: Instant,
    after: KademliaView,
    actions: Seq<KademliaActionView<S>>,
) -> bool {
    let found = others(settings.local_key.preimage, peers);
    &&& actions == update_actions::<S>(found)
    &&& table_updated(settings, before, found, after.buckets)
    &&& query_answered(before.queries, query, peer, content, now, after.queries)
    &&& after == (KademliaView { buckets: after.buckets, queries: after.queries, ..before })
}

/// What a message makes of the node, and what is done about it.
pub open spec fn message_received<S>(
    settings: KademliaSettings,
    before: KademliaView,
    peer: PeerId,
    query_id: Option<QueryId>,
    message: Option<schema::Message>,
    substream: S,
    now: Instant,
    after: KademliaView,
    result: Result<Vec<KademliaAction<S>>, Error>,
) -> bool {
    let content = match message {
        Some(message) => message::parsed_message(message@),
        None => None,
    };
    match (content, result) {
        (None, Err(e)) => e == Error::InvalidData && after == before,
        (Some(content), Ok(actions)) => {
            let actions = node_actions(actions@);
            match (content, query_id) {
                (
                    message::KademliaMessageView::FindNode { peers, .. },
                    Some(query),
                ) => answer_handled(
                    settings,
                    before,
                    peer,
                    query,
                    content,
                    peers,
                    now,
                    after,
                    actions,
                ),
                (message::KademliaMessageView::FindNode { target, .. }, None) => {
                    &&& find_node_answer(settings, before, peer, target, substream, actions)
                    &&& after == before
                },
                (message::KademliaMessageView::PutValue { record }, _) => {
                    &&& actions == Seq::<KademliaActionView<S>>::empty()
                    &&& after == (KademliaView {
                        store: before.store.put(settings.store, record),
                        ..before
                    })
                },
                (
                    message::KademliaMessageView::GetRecord { peers, .. },
                    Some(query),
                ) => answer_handled(
                    settings,
                    before,
                    peer,
                    query,
                    content,
                    peers,
                    now,
                    after,
                    actions,
                ),
                (message::KademliaMessageView::GetRecord { key: Some(key), .. }, None) => {
                    &&& get_value_answer(settings, before, peer, key, substream, now, actions)
                    &&& after == (KademliaView {
                        store: before.store.after_get(key, now),
                        ..before
                    })
                },
                (message::KademliaMessageView::GetRecord { key: None, .. }, None) => {
                    &&& actions == Seq::<KademliaActionView<S>>::empty()
                    &&& after == before
                },
            }
        },
        _ => false,
    }
}

/// What a substream that could not be opened makes of the node: its peer is disconnected.
pub open spec fn open_failed(
    settings: KademliaSettings,
    before: KademliaView,
    id: SubstreamId,
    after: KademliaView,
) -> bool {
    let peer = before.pending_substreams[id];
    let removed = KademliaView {
        pending_substreams: before.pending_substreams.remove(id),
        ..before
    };
    if !before.pending_substreams.contains_key(id) {
        after == before
    } else if !before.peers.contains_key(peer) {
        after == removed
    } else {
        let actions = before.peers[peer];
        let query = if actions.contains_key(id) {
            match actions[id] {
                PeerActionView::SendFindNode(query) => Some(query),
                _ => None,
            }
        } else {
            None
        };
        disconnected(
            settings,
            KademliaView { peers: before.peers.insert(peer, actions.remove(id)), ..removed },
            peer,
            query,
            after,
        )
    }
}

/// The node after a dial has failed: the queries that have been waiting for it lose the peer.
pub open spec fn dial_failed(before: KademliaView, peer: PeerId) -> KademliaView {
    if before.pending_dials.contains_key(peer) {
        KademliaView {
            pending_dials: before.pending_dials.remove(peer),
            queries: fail_all(before.queries, queries_in(before.pending_dials[peer]), peer),
            ..before
        }
    } else {
        before
    }
}

proof fn lemma_queries_in_push(actions: Seq<PeerActionView>, action: PeerActionView)
    ensures
        queries_in(actions.push(action)) == match action {
            PeerActionView::SendFindNode(q) => queries_in(actions).insert(q),
            _ => queries_in(actions),
        },
{
    let after = actions.push(action);
    let expected = match action {
        PeerActionView::SendFindNode(q) => queries_in(actions).insert(q),
        _ => queries_in(actions),
    };
    assert forall|q: QueryId| queries_in(after).contains(q) <==> expected.contains(q) by {
        let a = PeerActionView::SendFindNode(q);
        if actions.contains(a) {
            let i = choose|i: int| 0 <= i < actions.len() && actions[i] == a;
            assert(after[i] == a);
        }
        assert(after[actions.len() as int] == action);
        if after.contains(a) {
            let i = choose|i: int| 0 <= i < after.len() && after[i] == a;
            if i < actions.len() {
                assert(actions[i] == a);
            }
        }
    }
    assert(queries_in(after) =~= expected);
}

/// Whether there is an answer of the transport for each action that has been waiting for the
/// connection to a new peer.
pub open spec fn enough_opened(
    view: KademliaView,
    peer: PeerId,
    opened: Seq<Option<SubstreamId>>,
) -> bool {
    !view.peers.contains_key(peer) && view.pending_dials.contains_key(peer) ==> opened.len()
        == view.pending_dials[peer].len()
}

/// What a connection that is established makes of the node: the actions that have been waiting for
/// it are pending on their substreams, the queries of those without one lose the peer, and the
/// routing table notes that it is connected.
pub open spec fn established(
    settings: KademliaSettings,
    before: KademliaView,
    peer: PeerId,
    opened: Seq<Option<SubstreamId>>,
    after: KademliaView,
) -> bool {
    if before.peers.contains_key(peer) {
        after == before
    } else {
        let actions = if before.pending_dials.contains_key(peer) {
            before.pending_dials[peer]
        } else {
            Seq::empty()
        };
        &&& routing_table::connection_set(
            settings.local_key,
            before.buckets,
            peer,
            ConnectionType::Connected,
            after.buckets,
        )
        &&& after == (KademliaView {
            peers: before.peers.insert(peer, opened_actions(actions, opened)),
            pending_dials: before.pending_dials.remove(peer),
            queries: fail_all(before.queries, unopened_queries(actions, opened), peer),
            buckets: after.buckets,
            ..before
        })
    }
}

/// What a peer that disconnects makes of the node: the query that it is named with and those that
/// its pending actions belong to lose it, and the routing table notes that it is not connected.
pub open spec fn disconnected(
    settings: KademliaSettings,
    before: KademliaView,
    peer: PeerId,
    query: Option<QueryId>,
    after: KademliaView,
) -> bool {
    let named = match query {
        Some(query) => Set::empty().insert(query),
        None => Set::empty(),
    };
    let failed = if before.peers.contains_key(peer) {
        named.union(queries_of(before.peers[peer]))
    } else {
        named
    };
    &&& routing_table::connection_set(
        settings.local_key,
        before.buckets,
        peer,
        ConnectionType::NotConnected,
        after.buckets,
    )
    &&& after == (KademliaView {
        peers: before.peers.remove(peer),
        queries: fail_all(before.queries, failed, peer),
        buckets: after.buckets,
        ..before
    })
}

} // verus!
