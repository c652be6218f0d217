//! The query engine.

use super::super::distance_map;
use super::super::handle::Quorum;
use super::super::message::{KademliaMessage, KademliaMessageView};
use super::super::record::{Record, RecordKey};
use super::super::types;
use super::super::types::{KademliaPeer, Key, Preimage};
use super::candidates;
use super::candidates::PeersView;
use super::find_node::{FindNodeConfig, FindNodeContext, FindNodeView, NextStep};
use super::get_record::{GetRecordConfig, GetRecordContext, GetRecordView};
use super::{QueryAction, QueryActionView, QueryId};
use crate::collections;
use crate::collections::AssocMap;
use crate::peer_id::PeerId;
use crate::time::Instant;
use vstd::prelude::*;

verus! {

/// Query type.
#[allow(inconsistent_fields)]
pub enum QueryType {
    /// `FIND_NODE` query.
    FindNode {
        /// Context for the `FIND_NODE` query
        context: FindNodeContext<PeerId>,
    },
    /// `PUT_VALUE` query.
    PutRecord {
        /// Record that needs to be stored.
        record: Record,
        /// Context for the `FIND_NODE` query
        context: FindNodeContext<RecordKey>,
    },
    /// `PUT_VALUE` query to specified peers.
    PutRecordToPeers {
        /// Record that needs to be stored.
        record: Record,
        /// Peers to store the record to.
        peers: Vec<KademliaPeer>,
    },
    /// `GET_VALUE` query.
    GetRecord {
        /// Context for the `GET_VALUE` query.
        context: GetRecordContext,
    },
}

/// A query: its configuration and its state.
#[allow(inconsistent_fields)]
pub enum QueryView {
    /// `FIND_NODE` query.
    FindNode {
        /// Configuration.
        config: FindNodeConfig<PeerId>,
        /// State.
        state: FindNodeView,
    },
    /// `PUT_VALUE` query.
    PutRecord {
        /// Record that needs to be stored.
        record: Record,
        /// Configuration.
        config: FindNodeConfig<RecordKey>,
        /// State.
        state: FindNodeView,
    },
    /// `PUT_VALUE` query to specified peers.
    PutRecordToPeers {
        /// Record that needs to be stored.
        record: Record,
        /// Peers to store the record to.
        peers: Seq<KademliaPeer>,
    },
    /// `GET_VALUE` query.
    GetRecord {
        /// Configuration.
        config: GetRecordConfig,
        /// State.
        state: GetRecordView,
    },
}

impl View for QueryType {
    type V = QueryView;

    open spec fn view(&self) -> QueryView {
        match *self {
            QueryType::FindNode { context } => QueryView::FindNode {
                config: context.config,
                state: context@,
            },
            QueryType::PutRecord { record, context } => QueryView::PutRecord {
                record,
                config: context.config,
                state: context@,
            },
            QueryType::PutRecordToPeers { record, peers } => QueryView::PutRecordToPeers {
                record,
                peers: peers@,
            },
            QueryType::GetRecord { context } => QueryView::GetRecord {
                config: context.config,
                state: context@,
            },
        }
    }
}

/// A query for peers after `peer` has answered with `peers`.
pub open spec fn find_node_answered<T: Preimage>(
    config: FindNodeConfig<T>,
    state: FindNodeView,
    peer: PeerId,
    peers: Seq<KademliaPeer>,
) -> FindNodeView {
    if state.peers.pending.contains_key(peer) {
        let entry = state.peers.pending[peer];
        let answered = state.peers.answered(peer);
        FindNodeView {
            peers: PeersView {
                candidates: answered.heard_of(config.local_peer_id, config.target.bytes, peers),
                ..answered
            },
            responses: state.responses_with(
                config.replication_factor,
                types::xor_distance(config.target.bytes, entry.key.bytes),
                entry,
            ),
        }
    } else {
        state
    }
}

/// The peers of a query after `peer` has failed to answer.
pub open spec fn peers_failed(peers: PeersView, peer: PeerId) -> PeersView {
    if peers.pending.contains_key(peer) {
        peers.answered(peer)
    } else {
        peers
    }
}

impl QueryView {
    /// The peers of the query, where it has any to ask.
    pub open spec fn peers(self) -> Option<PeersView> {
        match self {
            QueryView::FindNode { state, .. } => Some(state.peers),
            QueryView::PutRecord { state, .. } => Some(state.peers),
            QueryView::PutRecordToPeers { .. } => None,
            QueryView::GetRecord { state, .. } => Some(state.peers),
        }
    }

    /// The query with other peers.
    pub open spec fn with_peers(self, peers: PeersView) -> Self {
        match self {
            QueryView::FindNode { config, state } => QueryView::FindNode {
                config,
                state: FindNodeView { peers, ..state },
            },
            QueryView::PutRecord { record, config, state } => QueryView::PutRecord {
                record,
                config,
                state: FindNodeView { peers, ..state },
            },
            QueryView::PutRecordToPeers { .. } => self,
            QueryView::GetRecord { config, state } => QueryView::GetRecord {
                config,
                state: GetRecordView { peers, ..state },
            },
        }
    }

    /// After `peer` has failed to answer.
    pub open spec fn failed(self, peer: PeerId) -> Self {
        match self.peers() {
            Some(peers) => self.with_peers(peers_failed(peers, peer)),
            None => self,
        }
    }

    /// Whether `message` answers the question that the query asks.
    pub open spec fn expects(self, message: KademliaMessageView) -> bool {
        match self {
            QueryView::FindNode { .. } => message is FindNode,
            QueryView::PutRecord { .. } => message is FindNode,
            QueryView::PutRecordToPeers { .. } => false,
            QueryView::GetRecord { .. } => message is GetRecord,
        }
    }

    /// After `peer` has answered with `message` at `now`.
    pub open spec fn answered(self, peer: PeerId, message: KademliaMessage, now: Instant) -> Self {
        match (self, message) {
            (
                QueryView::FindNode { config, state },
                KademliaMessage::FindNode { peers, .. },
            ) => QueryView::FindNode {
                config,
                state: find_node_answered(config, state, peer, peers@),
            },
            (
                QueryView::PutRecord { record, config, state },
                KademliaMessage::FindNode { peers, .. },
            ) => QueryView::PutRecord {
                record,
                config,
                state: find_node_answered(config, state, peer, peers@),
            },
            (
                QueryView::GetRecord { config, state },
                KademliaMessage::GetRecord { record, peers, .. },
            ) => QueryView::GetRecord {
                config,
                state: state.answered(config, peer, record, peers@, now),
            },
            _ => self,
        }
    }

    /// What the query does next.
    pub open spec fn next_step(self) -> NextStep {
        match self {
            QueryView::FindNode { config, state } => state.next_step(config),
            QueryView::PutRecord { config, state, .. } => state.next_step(config),
            QueryView::PutRecordToPeers { .. } => NextStep::Succeeded,
            QueryView::GetRecord { config, state } => state.next_step(config),
        }
    }

    /// The message that the query sends to a peer.
    pub open spec fn request(self, peer: PeerId) -> QueryActionView {
        match self {
            QueryView::FindNode { config, .. } => QueryActionView::SendMessage {
                query: config.query,
                peer,
                message: super::super::message::find_node_message(
                    config.target.preimage.spec_preimage(),
                ),
            },
            QueryView::PutRecord { config, .. } => QueryActionView::SendMessage {
                query: config.query,
                peer,
                message: super::super::message::find_node_message(
                    config.target.preimage.spec_preimage(),
                ),
            },
            QueryView::PutRecordToPeers { .. } => arbitrary(),
            QueryView::GetRecord { config, .. } => QueryActionView::SendMessage {
                query: config.query,
                peer,
                message: super::super::message::get_record_message(config.target.preimage@),
            },
        }
    }

    /// What a query that has succeeded hands out.
    pub open spec fn result(self, query: QueryId, action: QueryActionView) -> bool {
        match (self, action) {
            (
                QueryView::FindNode { config, state },
                QueryActionView::FindNodeQuerySucceeded { query: q, target, peers },
            ) => {
                &&& q == query
                &&& target == config.target.preimage
                &&& distance_map::is_ascending(state.responses, peers)
            },
            (
                QueryView::PutRecord { record, state, .. },
                QueryActionView::PutRecordToFoundNodes { record: r, peers },
            ) => r == record && distance_map::is_ascending(state.responses, peers),
            (
                QueryView::PutRecordToPeers { record, peers },
                QueryActionView::PutRecordToFoundNodes { record: r, peers: p },
            ) => r == record && p == peers,
            (
                QueryView::GetRecord { state, .. },
                QueryActionView::GetRecordQueryDone { query_id, records },
            ) => query_id == query && records == state.found,
            _ => false,
        }
    }
}

/// What a query that acts makes of the queries.
pub open spec fn acted(
    before: Map<QueryId, QueryView>,
    query: QueryId,
    after: Map<QueryId, QueryView>,
    action: QueryActionView,
) -> bool {
    &&& before.contains_key(query)
    &&& match before[query].next_step() {
        NextStep::Wait => false,
        NextStep::Schedule => {
            let peers = before[query].peers().unwrap();
            &&& after == before.insert(query, before[query].with_peers(peers.scheduled()))
            &&& action == before[query].request(peers.next_peer().peer)
        },
        NextStep::Succeeded => {
            &&& after == before.remove(query)
            &&& before[query].result(query, action)
        },
        NextStep::Failed => {
            &&& after == before.remove(query)
            &&& action == (QueryActionView::QueryFailed { query })
        },
    }
}

impl QueryType {
    /// Register response failure from a queried peer.
    fn fail(&mut self, peer: PeerId)
        ensures
            final(self)@ == old(self)@.failed(peer),
    {
        match self {
            QueryType::FindNode { context } => {
                context.register_response_failure(peer);
            },
            QueryType::PutRecord { context, .. } => {
                context.register_response_failure(peer);
            },
            QueryType::PutRecordToPeers { .. } => {},
            QueryType::GetRecord { context } => {
                context.register_response_failure(peer);
            },
        }
    }

    /// Register that `message` was received from `peer`.
    fn answer(&mut self, peer: PeerId, message: KademliaMessage, now: Instant)
        ensures
            final(self)@ == old(self)@.answered(peer, message, now),
    {
        match self {
            QueryType::FindNode { context } => match message {
                KademliaMessage::FindNode { peers, .. } => {
                    context.register_response(peer, peers);
                },
                _ => {},
            },
            QueryType::PutRecord { context, .. } => match message {
                KademliaMessage::FindNode { peers, .. } => {
                    context.register_response(peer, peers);
                },
                _ => {},
            },
            QueryType::PutRecordToPeers { .. } => {},
            QueryType::GetRecord { context } => match message {
                KademliaMessage::GetRecord { record, peers, .. } => {
                    context.register_response_at(peer, record, peers, now);
                },
                _ => {},
            },
        }
    }

    fn next_action(&mut self, query: QueryId) -> (r: Option<QueryAction>)
        ensures
            match old(self)@.next_step() {
                NextStep::Wait => r is None && final(self)@ == old(self)@,
                NextStep::Schedule => {
                    let peers = old(self)@.peers().unwrap();
                    &&& final(self)@ == old(self)@.with_peers(peers.scheduled())
                    &&& r matches Some(action) && action@ == old(self)@.request(
                        peers.next_peer().peer,
                    )
                    &&& !(r->Some_0@ is QuerySucceeded) && !(r->Some_0@ is QueryFailed)
                },
                NextStep::Succeeded => {
                    &&& r matches Some(action) && action@ is QuerySucceeded
                    &&& final(self)@ == old(self)@
                },
                NextStep::Failed => {
                    &&& r matches Some(action) && action@ is QueryFailed
                    &&& final(self)@ == old(self)@
                },
            },
    {
        match self {
            QueryType::FindNode { context } => context.next_action(),
            QueryType::PutRecord { context, .. } => context.next_action(),
            QueryType::PutRecordToPeers { .. } => Some(QueryAction::QuerySucceeded { query }),
            QueryType::GetRecord { context } => context.next_action(),
        }
    }
}

/// Kademlia query engine.
pub struct QueryEngine {
    /// Local peer ID.
    local_peer_id: PeerId,
    /// Replication factor.
    replication_factor: usize,
    /// Parallelism factor.
    parallelism_factor: usize,
    /// Active queries.
    queries: AssocMap<QueryId, QueryType>,
}

/// A query by its view.
pub open spec fn query_view(query: QueryType) -> QueryView {
    query@
}

impl View for QueryEngine {
    type V = Map<QueryId, QueryView>;

    closed spec fn view(&self) -> Map<QueryId, QueryView> {
        self.queries@.map_values(|q: QueryType| query_view(q))
    }
}

/// The settings of the engine.
pub struct EngineSettings {
    /// Local peer ID.
    pub local_peer_id: PeerId,
    /// Replication factor.
    pub replication_factor: usize,
    /// Parallelism factor.
    pub parallelism_factor: usize,
}

/// The peers that a query starts with.
pub open spec fn initial_peers(
    target: super::super::u256::U256,
    in_peers: Seq<KademliaPeer>,
) -> PeersView {
    PeersView {
        pending: Map::empty(),
        queried: Set::empty(),
        candidates: candidates::initial_candidates(target, in_peers),
    }
}

/// A `FIND_NODE` query for `target` as it starts.
pub open spec fn find_node_query(
    settings: EngineSettings,
    query: QueryId,
    target: PeerId,
    in_peers: Seq<KademliaPeer>,
) -> QueryView {
    let place = types::place_of(target.spec_bytes());
    QueryView::FindNode {
        config: FindNodeConfig {
            local_peer_id: settings.local_peer_id,
            replication_factor: settings.replication_factor,
            parallelism_factor: settings.parallelism_factor,
            query,
            target: Key { preimage: target, bytes: place },
        },
        state: FindNodeView { peers: initial_peers(place, in_peers), responses: Map::empty() },
    }
}

/// Whether `view` is a `PUT_VALUE` query for `record` as it starts.
pub open spec fn put_record_query(
    settings: EngineSettings,
    query: QueryId,
    record: Record,
    in_peers: Seq<KademliaPeer>,
    view: QueryView,
) -> bool {
    &&& view matches QueryView::PutRecord { record: r, config, state }
    &&& r@ == record@
    &&& config.local_peer_id == settings.local_peer_id
    &&& config.replication_factor == settings.replication_factor
    &&& config.parallelism_factor == settings.parallelism_factor
    &&& config.query == query
    &&& config.target.preimage@ == record.key@
    &&& config.target.bytes == types::place_of(record.key@)
    &&& state == FindNodeView {
        peers: initial_peers(types::place_of(record.key@), in_peers),
        responses: Map::empty(),
    }
}

/// Whether `view` is a `GET_VALUE` query for `key` as it starts.
pub open spec fn get_record_query(
    settings: EngineSettings,
    query: QueryId,
    key: Seq<u8>,
    in_peers: Seq<KademliaPeer>,
    quorum: Quorum,
    count: usize,
    view: QueryView,
) -> bool {
    &&& view matches QueryView::GetRecord { config, state }
    &&& config.local_peer_id == settings.local_peer_id
    &&& config.known_records == count
    &&& config.quorum == quorum
    &&& config.replication_factor == settings.replication_factor
    &&& config.parallelism_factor == settings.parallelism_factor
    &&& config.query == query
    &&& config.target.preimage@ == key
    &&& config.target.bytes == types::place_of(key)
    &&& state == GetRecordView {
        peers: initial_peers(types::place_of(key), in_peers),
        found: Seq::empty(),
    }
}

impl QueryEngine {
    /// The settings.
    pub closed spec fn settings(self) -> EngineSettings {
        EngineSettings {
            local_peer_id: self.local_peer_id,
            replication_factor: self.replication_factor,
            parallelism_factor: self.parallelism_factor,
        }
    }

    /// Create new [`QueryEngine`].
    pub fn new(
        local_peer_id: PeerId,
        replication_factor: usize,
        parallelism_factor: usize,
    ) -> (r: Self)
        ensures
            r@ == Map::<QueryId, QueryView>::empty(),
            r.settings() == (EngineSettings {
                local_peer_id,
                replication_factor,
                parallelism_factor,
            }),
    {
        let r = QueryEngine {
            local_peer_id,
            replication_factor,
            parallelism_factor,
            queries: AssocMap::new(),
        };
        assert(r@ =~= Map::<QueryId, QueryView>::empty());
        r
    }

    /// The number of active queries.
    pub fn len(&self) -> (r: usize)
        ensures
            r == self@.len(),
    {
        let r: usize = self.queries.len();
        assert(self@.dom() =~= self.queries@.dom());
        r
    }

    /// Whether a query is active.
    pub fn is_active(&self, query: &QueryId) -> (r: bool)
        ensures
            r == self@.contains_key(*query),
    {
        self.queries.contains_key(query)
    }

    fn put(&mut self, query_id: QueryId, query: QueryType)
        ensures
            final(self)@ == old(self)@.insert(query_id, query@),
            final(self).settings() == old(self).settings(),
            !old(self)@.contains_key(query_id) ==> final(self).queries.order() == old(
                self,
            ).queries.order().push(query_id),
    {
        proof {
            collections::lemma_map_values_insert(
                self.queries@,
                |q: QueryType| query_view(q),
                query_id,
                query,
            );
        }
        self.queries.insert(query_id, query);
    }

    fn take(&mut self, query_id: &QueryId) -> (r: Option<QueryType>)
        ensures
            final(self)@ == old(self)@.remove(*query_id),
            final(self).settings() == old(self).settings(),
            match r {
                Some(query) => old(self)@.contains_key(*query_id) && query@ == old(
                    self,
                )@[*query_id],
                None => !old(self)@.contains_key(*query_id),
            },
    {
        proof {
            collections::lemma_map_values_remove(
                self.queries@,
                |q: QueryType| query_view(q),
                *query_id,
            );
        }
        self.queries.remove(query_id)
    }

    /// Start `FIND_NODE` query.
    pub fn start_find_node(
        &mut self,
        query_id: QueryId,
        target: PeerId,
        candidates: Vec<KademliaPeer>,
    ) -> (r: QueryId)
        ensures
            r == query_id,
            final(self).settings() == old(self).settings(),
            final(self)@ == old(self)@.insert(
                query_id,
                find_node_query(old(self).settings(), query_id, target, candidates@),
            ),
    {
        let key = Key::from_peer(target);
        let config = FindNodeConfig {
            local_peer_id: self.local_peer_id,
            replication_factor: self.replication_factor,
            parallelism_factor: self.parallelism_factor,
            query: query_id,
            target: key,
        };
        let context = FindNodeContext::new(config, candidates);
        self.put(query_id, QueryType::FindNode { context });
        query_id
    }

    /// Start `PUT_VALUE` query.
    pub fn start_put_record(
        &mut self,
        query_id: QueryId,
        record: Record,
        candidates: Vec<KademliaPeer>,
    ) -> (r: QueryId)
        ensures
            r == query_id,
            final(self).settings() == old(self).settings(),
            final(self)@ == old(self)@.insert(query_id, final(self)@[query_id]),
            put_record_query(
                old(self).settings(),
                query_id,
                record,
                candidates@,
                final(self)@[query_id],
            ),
    {
        let target = Key::new(record.key.clone());
        let config = FindNodeConfig {
            local_peer_id: self.local_peer_id,
            replication_factor: self.replication_factor,
            parallelism_factor: self.parallelism_factor,
            query: query_id,
            target,
        };
        let context = FindNodeContext::new(config, candidates);
        self.put(query_id, QueryType::PutRecord { record, context });
        query_id
    }

    /// Start `PUT_VALUE` query to specified peers.
    pub fn start_put_record_to_peers(
        &mut self,
        query_id: QueryId,
        record: Record,
        peers: Vec<KademliaPeer>,
    ) -> (r: QueryId)
        ensures
            r == query_id,
            final(self).settings() == old(self).settings(),
            final(self)@ == old(self)@.insert(
                query_id,
                QueryView::PutRecordToPeers { record, peers: peers@ },
            ),
    {
        self.put(query_id, QueryType::PutRecordToPeers { record, peers });
        query_id
    }

    /// Start `GET_VALUE` query.
    pub fn start_get_record(
        &mut self,
        query_id: QueryId,
        target: RecordKey,
        candidates: Vec<KademliaPeer>,
        quorum: Quorum,
        count: usize,
    ) -> (r: QueryId)
        ensures
            r == query_id,
            final(self).settings() == old(self).settings(),
            final(self)@ == old(self)@.insert(query_id, final(self)@[query_id]),
            get_record_query(
                old(self).settings(),
                query_id,
                target@,
                candidates@,
                quorum,
                count,
                final(self)@[query_id],
            ),
    {
        let key = Key::new(target);
        let config = GetRecordConfig {
            local_peer_id: self.local_peer_id,
            known_records: count,
            quorum,
            replication_factor: self.replication_factor,
            parallelism_factor: self.parallelism_factor,
            query: query_id,
            target: key,
        };
        let context = GetRecordContext::new(config, candidates, Vec::new());
        assert(context@.found =~= Seq::empty());
        self.put(query_id, QueryType::GetRecord { context });
        query_id
    }

    /// Register response failure from a queried peer.
    ///
    /// A query that is not active any more is left alone.
    pub fn register_response_failure(&mut self, query: QueryId, peer: PeerId)
        ensures
            final(self).settings() == old(self).settings(),
            final(self)@ == (if old(self)@.contains_key(query) {
                old(self)@.insert(query, old(self)@[query].failed(peer))
            } else {
                old(self)@
            }),
    {
        let ghost before = self@;
        match self.take(&query) {
            Some(mut state) => {
                state.fail(peer);
                self.put(query, state);
                assert(before.remove(query).insert(query, state@) =~= before.insert(
                    query,
                    state@,
                ));
            },
            None => {
                assert(before.remove(query) =~= before);
            },
        }
    }

    /// Register that `message` was received from `peer`.
    ///
    /// A query that is not active any more is left alone.
    pub fn register_response(&mut self, query: QueryId, peer: PeerId, message: KademliaMessage)
        requires
            old(self)@.contains_key(query) ==> old(self)@[query].expects(message@),
        ensures
            final(self).settings() == old(self).settings(),
            if old(self)@.contains_key(query) {
                exists|now: Instant|
                    final(self)@ == old(self)@.insert(
                        query,
                        #[trigger] old(self)@[query].answered(peer, message, now),
                    )
            } else {
                final(self)@ == old(self)@
            },
    {
        let now = Instant::now();
        self.register_response_at(query, peer, message, now);
    }

    /// Register that `message` was received from `peer` at `now`.
    pub fn register_response_at(
        &mut self,
        query: QueryId,
        peer: PeerId,
        message: KademliaMessage,
        now: Instant,
    )
        requires
            old(self)@.contains_key(query) ==> old(self)@[query].expects(message@),
        ensures
            final(self).settings() == old(self).settings(),
            final(self)@ == (if old(self)@.contains_key(query) {
                old(self)@.insert(query, old(self)@[query].answered(peer, message, now))
            } else {
                old(self)@
            }),
    {
        let ghost before = self@;
        match self.take(&query) {
            Some(mut state) => {
                state.answer(peer, message, now);
                self.put(query, state);
                assert(before.remove(query).insert(query, state@) =~= before.insert(
                    query,
                    state@,
                ));
            },
            None => {
                assert(before.remove(query) =~= before);
            },
        }
    }

    /// Whether a query, if it is active, asks for peers that are closer to its target.
    pub fn asks_for_peers(&self, query: &QueryId) -> (r: bool)
        ensures
            r == (self@.contains_key(*query) ==> self@[*query] is FindNode || self@[*query]
                is PutRecord),
    {
        match self.queries.get(query) {
            Some(QueryType::FindNode { .. }) => true,
            Some(QueryType::PutRecord { .. }) => true,
            Some(_) => false,
            None => true,
        }
    }

    /// Whether a query, if it is active, asks for a record.
    pub fn asks_for_record(&self, query: &QueryId) -> (r: bool)
        ensures
            r == (self@.contains_key(*query) ==> self@[*query] is GetRecord),
    {
        match self.queries.get(query) {
            Some(QueryType::GetRecord { .. }) => true,
            Some(_) => false,
            None => true,
        }
    }

    /// Whether `message` answers the question that a query asks.
    pub fn expects(&self, query: &QueryId, message: &KademliaMessage) -> (r: bool)
        ensures
            r == (self@.contains_key(*query) && self@[*query].expects(message@)),
    {
        match (self.queries.get(query), message) {
            (Some(QueryType::FindNode { .. }), KademliaMessage::FindNode { .. }) => true,
            (Some(QueryType::PutRecord { .. }), KademliaMessage::FindNode { .. }) => true,
            (Some(QueryType::GetRecord { .. }), KademliaMessage::GetRecord { .. }) => true,
            _ => false,
        }
    }

    /// Get next action for `peer` from the [`QueryEngine`].
    pub fn next_peer_action(&self, query: &QueryId, peer: &PeerId) -> (r: Option<QueryAction>)
        ensures
            match r {
                Some(action) => {
                    &&& self@.contains_key(*query)
                    &&& self@[*query].peers() matches Some(peers)
                    &&& peers.pending.contains_key(*peer)
                    &&& action@ == self@[*query].request(*peer)
                },
                None => !self@.contains_key(*query) || match self@[*query].peers() {
                    Some(peers) => !peers.pending.contains_key(*peer),
                    None => true,
                },
            },
    {
        match self.queries.get(query) {
            Some(QueryType::FindNode { context }) => context.next_peer_action(peer),
            Some(QueryType::PutRecord { context, .. }) => context.next_peer_action(peer),
            Some(QueryType::PutRecordToPeers { .. }) => None,
            Some(QueryType::GetRecord { context }) => context.next_peer_action(peer),
            None => None,
        }
    }

    /// Handle query success by returning the queried value(s).
    fn on_query_succeeded(query_id: QueryId, query: QueryType) -> (r: QueryAction)
        ensures
            query@.result(query_id, r@),
    {
        match query {
            QueryType::FindNode { context } => QueryAction::FindNodeQuerySucceeded {
                query: query_id,
                target: context.config.target.into_preimage(),
                peers: context.responses.into_values(),
            },
            QueryType::PutRecord { record, context } => QueryAction::PutRecordToFoundNodes {
                record,
                peers: context.responses.into_values(),
            },
            QueryType::PutRecordToPeers { record, peers } => QueryAction::PutRecordToFoundNodes {
                record,
                peers,
            },
            QueryType::GetRecord { context } => QueryAction::GetRecordQueryDone {
                query_id,
                records: context.found_records(),
            },
        }
    }

    /// Get next action from the [`QueryEngine`].
    ///
    /// Some query that does not wait acts; one that succeeds or fails is not active any more.
    pub fn next_action(&mut self) -> (r: Option<QueryAction>)
        ensures
            final(self).settings() == old(self).settings(),
            match r {
                Some(action) => exists|query: QueryId| #[trigger]
                    acted(old(self)@, query, final(self)@, action@),
                None => {
                    &&& final(self)@ == old(self)@
                    &&& forall|query: QueryId| #[trigger]
                        old(self)@.contains_key(query) ==> old(self)@[query].next_step() is Wait
                },
            },
    {
        let ghost before = self@;
        let ghost all = self.queries.order();
        let n: usize = self.queries.len();
        let mut i: usize = 0;
        assert(all.skip(0) + all.take(0) =~= all);
        assert forall|q: QueryId| before.contains_key(q) <==> all.contains(q) by {
            assert(all.to_set().contains(q) <==> all.contains(q));
        }
        while i < n
            invariant
                i <= n,
                n == all.len(),
                self.settings() == old(self).settings(),
                before == old(self)@,
                self@ == before,
                self.queries.order() == all.skip(i as int) + all.take(i as int),
                forall|q: QueryId| before.contains_key(q) <==> all.contains(q),
                forall|j: int|
                    0 <= j < i ==> before[#[trigger] all[j]].next_step() is Wait,
            decreases n - i,
        {
            let ghost order = self.queries.order();
            assert(order[0] == all[i as int]);
            proof {
                collections::lemma_map_values_remove(
                    self.queries@,
                    |q: QueryType| query_view(q),
                    order[0],
                );
            }
            match self.queries.pop_front() {
                Some((query_id, mut query)) => {
                    let ghost old_query = query@;
                    assert(before.contains_key(query_id));
                    assert(old_query == before[query_id]);
                    assert(self@ == before.remove(query_id));
                    match query.next_action(query_id) {
                        Some(QueryAction::QuerySucceeded { .. }) => {
                            let action = QueryEngine::on_query_succeeded(query_id, query);
                            assert(acted(before, query_id, self@, action@));
                            return Some(action);
                        },
                        Some(QueryAction::QueryFailed { .. }) => {
                            let action = QueryAction::QueryFailed { query: query_id };
                            assert(acted(before, query_id, self@, action@));
                            return Some(action);
                        },
                        Some(action) => {
                            let ghost new_query = query@;
                            self.put(query_id, query);
                            assert(before.remove(query_id).insert(query_id, new_query)
                                =~= before.insert(query_id, new_query));
                            assert(acted(before, query_id, self@, action@));
                            return Some(action);
                        },
                        None => {
                            let ghost new_query = query@;
                            assert(!self.queries@.contains_key(query_id));
                            self.put(query_id, query);
                            assert(before.remove(query_id).insert(query_id, new_query) =~= before);
                            proof {
                                let j = i as int;
                                assert((all.skip(j) + all.take(j)).skip(1).push(all[j])
                                    =~= all.skip(j + 1) + all.take(j + 1));
                            }
                        },
                    }
                },
                None => {
                    assert(false);
                },
            }
            i += 1;
        }
        assert(all.skip(n as int) + all.take(n as int) =~= all);
        assert forall|query: QueryId| #[trigger]
            before.contains_key(query) implies before[query].next_step() is Wait by {
            let j = choose|j: int| 0 <= j < all.len() && all[j] == query;
            assert(before[all[j]].next_step() is Wait);
        }
        None
    }
}

} // verus!
