//! Commands and events.

use super::query::QueryId;
use super::record::{PeerRecord, Record, RecordKey, RecordView};
use crate::address;
use crate::address::Multiaddr;
use crate::collections;
use crate::collections::AssocMap;
use crate::peer_id::PeerId;
use vstd::prelude::*;

verus! {

/// A number that is not zero.
#[derive(Clone, Copy, Debug, PartialEq, Eq)]
pub struct NonZeroUsize {
    value: usize,
}

impl NonZeroUsize {
    #[verifier::type_invariant]
    spec fn wf(self) -> bool {
        self.value > 0
    }

    /// The number.
    pub closed spec fn spec_get(&self) -> usize {
        self.value
    }

    /// The number `value`, unless it is zero.
    pub fn new(value: usize) -> (r: Option<Self>)
        ensures
            match r {
                Some(n) => value > 0 && n.spec_get() == value,
                None => value == 0,
            },
    {
        if value > 0 {
            Some(NonZeroUsize { value })
        } else {
            None
        }
    }

    /// The number.
    pub fn get(&self) -> (r: usize)
        ensures
            r == self.spec_get(),
            r > 0,
    {
        proof {
            use_type_invariant(self);
        }
        self.value
    }
}

/// Quorum.
///
/// Quorum defines how many peers must be successfully contacted
/// in order for the query to be considered successful.
#[derive(Clone, Copy, Debug, PartialEq, Eq)]
pub enum Quorum {
    /// All peers must be successfully contacted.
    All,
    /// One peer must be successfully contacted.
    One,
    /// `N` peers must be successfully contacted.
    N(NonZeroUsize),
}

/// Routing table update mode.
#[derive(Clone, Copy, Debug, PartialEq, Eq, Structural)]
pub enum RoutingTableUpdateMode {
    /// Don't insert discovered peers automatically to the routing tables but
    /// allow user to do that by calling [`KademliaHandle::add_known_peer()`].
    Manual,
    /// Automatically add all discovered peers to routing tables.
    Automatic,
}

/// Incoming record validation mode.
#[derive(Clone, Copy, Debug, PartialEq, Eq, Structural)]
pub enum IncomingRecordValidationMode {
    /// Don't insert incoming records automatically to the local DHT store.
    Manual,
    /// Automatically accept all incoming records.
    Automatic,
}

/// Kademlia commands.
#[derive(Debug, PartialEq, Eq)]
pub enum KademliaCommand {
    /// Add known peer.
    AddKnownPeer {
        /// Peer ID.
        peer: PeerId,
        /// Addresses of peer.
        addresses: Vec<Multiaddr>,
    },
    /// Send `FIND_NODE` message.
    FindNode {
        /// Peer ID.
        peer: PeerId,
        /// Query ID for the query.
        query_id: QueryId,
    },
    /// Store record to DHT.
    PutRecord {
        /// Record.
        record: Record,
        /// Query ID for the query.
        query_id: QueryId,
    },
    /// Store record to DHT to the given peers.
    ///
    /// Similar to [`KademliaCommand::PutRecord`] but allows user to specify the peers.
    PutRecordToPeers {
        /// Record.
        record: Record,
        /// Query ID for the query.
        query_id: QueryId,
        /// Use the following peers for the put request.
        peers: Vec<PeerId>,
        /// Update local store.
        update_local_store: bool,
    },
    /// Get record from DHT.
    GetRecord {
        /// Record key.
        key: RecordKey,
        /// [`Quorum`] for the query.
        quorum: Quorum,
        /// Query ID for the query.
        query_id: QueryId,
    },
}

/// Kademlia events.
#[allow(inconsistent_fields)]
#[derive(Debug, PartialEq, Eq)]
pub enum KademliaEvent {
    /// Result for the issued `FIND_NODE` query.
    FindNodeSuccess {
        /// Query ID.
        query_id: QueryId,
        /// Target of the query
        target: PeerId,
        /// Found nodes and their addresses.
        peers: Vec<(PeerId, Vec<Multiaddr>)>,
    },
    /// Routing table update.
    ///
    /// Kademlia has discovered one or more peers that should be added to the routing table.
    /// If [`RoutingTableUpdateMode`] is `Automatic`, user can ignore this event unless some
    /// upper-level protocols has user for this information.
    ///
    /// If the mode was set to `Manual`, user should call [`KademliaHandle::add_known_peer()`]
    /// in order to add the peers to routing table.
    RoutingTableUpdate {
        /// Discovered peers.
        peers: Vec<PeerId>,
    },
    /// `GET_VALUE` query succeeded.
    GetRecordSuccess {
        /// Query ID.
        query_id: QueryId,
        /// Found records.
        records: RecordsType,
    },
    /// `PUT_VALUE` query succeeded.
    PutRecordSucess {
        /// Query ID.
        query_id: QueryId,
        /// Record key.
        key: RecordKey,
    },
    /// Query failed.
    QueryFailed {
        /// Query ID.
        query_id: QueryId,
    },
}

/// The type of the DHT records.
#[derive(Debug, PartialEq, Eq)]
pub enum RecordsType {
    /// Record was found in the local store.
    ///
    /// This contains only a single result.
    LocalStore(Record),
    /// Records found in the network, each with the peers that it came from.
    Network(AssocMap<Record, Vec<PeerId>>),
}

/// Found records, by their views.
pub enum RecordsView {
    /// Record was found in the local store.
    LocalStore(RecordView),
    /// Records found in the network, each with the peers that it came from.
    Network(Map<RecordView, Seq<PeerId>>),
}

/// A list of peers as a sequence.
pub open spec fn peer_list(peers: Vec<PeerId>) -> Seq<PeerId> {
    peers@
}

impl View for RecordsType {
    type V = RecordsView;

    open spec fn view(&self) -> RecordsView {
        match *self {
            RecordsType::LocalStore(record) => RecordsView::LocalStore(record@),
            RecordsType::Network(records) => RecordsView::Network(
                records@.map_values(|p: Vec<PeerId>| peer_list(p)),
            ),
        }
    }
}

/// Kademlia events, by their views.
#[allow(inconsistent_fields)]
pub enum KademliaEventView {
    /// Result for the issued `FIND_NODE` query.
    FindNodeSuccess {
        /// Query ID.
        query_id: QueryId,
        /// Target of the query
        target: PeerId,
        /// Found nodes and their addresses.
        peers: Seq<(PeerId, Seq<Seq<u8>>)>,
    },
    /// Routing table update.
    RoutingTableUpdate {
        /// Discovered peers.
        peers: Seq<PeerId>,
    },
    /// `GET_VALUE` query succeeded.
    GetRecordSuccess {
        /// Query ID.
        query_id: QueryId,
        /// Found records.
        records: RecordsView,
    },
    /// `PUT_VALUE` query succeeded.
    PutRecordSucess {
        /// Query ID.
        query_id: QueryId,
        /// Record key.
        key: Seq<u8>,
    },
    /// Query failed.
    QueryFailed {
        /// Query ID.
        query_id: QueryId,
    },
}

impl View for KademliaEvent {
    type V = KademliaEventView;

    open spec fn view(&self) -> KademliaEventView {
        match *self {
            KademliaEvent::FindNodeSuccess { query_id, target, peers } =>
                KademliaEventView::FindNodeSuccess {
                    query_id,
                    target,
                    peers: Seq::new(
                        peers@.len(),
                        |i: int| (peers@[i].0, address::address_views(peers@[i].1@)),
                    ),
                },
            KademliaEvent::RoutingTableUpdate { peers } => KademliaEventView::RoutingTableUpdate {
                peers: peers@,
            },
            KademliaEvent::GetRecordSuccess { query_id, records } =>
                KademliaEventView::GetRecordSuccess { query_id, records: records@ },
            KademliaEvent::PutRecordSucess { query_id, key } =>
                KademliaEventView::PutRecordSucess { query_id, key: key@ },
            KademliaEvent::QueryFailed { query_id } => KademliaEventView::QueryFailed { query_id },
        }
    }
}

/// Records by the peers that they came from: for every record, its peers in order.
pub open spec fn grouped(records: Seq<PeerRecord>) -> Map<RecordView, Seq<PeerId>>
    decreases records.len(),
{
    if records.len() == 0 {
        Map::empty()
    } else {
        let before = grouped(records.drop_last());
        let last = records.last();
        let peers = if before.contains_key(last.record@) {
            before[last.record@]
        } else {
            Seq::empty()
        };
        before.insert(last.record@, peers.push(last.peer))
    }
}

/// Groups records by the peers that they came from.
pub fn group_records(records: Vec<PeerRecord>) -> (r: AssocMap<Record, Vec<PeerId>>)
    ensures
        r@.map_values(|p: Vec<PeerId>| peer_list(p)) == grouped(records@),
{
    let ghost all = records@;
    let ghost list = |p: Vec<PeerId>| peer_list(p);
    let mut records = records;
    let mut r: AssocMap<Record, Vec<PeerId>> = AssocMap::new();
    let mut done: Ghost<int> = Ghost(0);
    assert(r@.map_values(list) =~= grouped(all.take(0)));
    while records.len() > 0
        invariant
            0 <= done@ <= all.len(),
            list == (|p: Vec<PeerId>| peer_list(p)),
            records@ == all.skip(done@),
            r@.map_values(list) == grouped(all.take(done@)),
        decreases records.len(),
    {
        let found = records.remove(0);
        proof {
            assert(found == all[done@]);
            assert(all.take(done@ + 1).drop_last() =~= all.take(done@));
            assert(all.take(done@ + 1).last() == found);
            assert(records@ =~= all.skip(done@ + 1));
        }
        let ghost before = r@;
        let mut peers = match r.remove(&found.record) {
            Some(peers) => peers,
            None => Vec::new(),
        };
        peers.push(found.peer);
        proof {
            collections::lemma_map_values_insert(r@, list, found.record@, peers);
            collections::lemma_map_values_remove(before, list, found.record@);
        }
        r.insert(found.record, peers);
        assert(r@.map_values(list) =~= grouped(all.take(done@ + 1)));
        proof {
            done@ = done@ + 1;
        }
    }
    assert(all.take(done@) =~= all);
    r
}

/// Handle for communicating with the Kademlia protocol: it numbers the queries.
pub struct KademliaHandle {
    /// Next query ID.
    next_query_id: usize,
}

impl KademliaHandle {
    /// The number of the next query.
    pub closed spec fn next(self) -> usize {
        self.next_query_id
    }

    /// Create new [`KademliaHandle`].
    pub fn new() -> (r: Self)
        ensures
            r.next() == 0,
    {
        KademliaHandle { next_query_id: 0 }
    }

    /// Allocate next query ID.
    pub fn next_query_id(&mut self) -> (r: QueryId)
        requires
            old(self).next() < usize::MAX,
        ensures
            r == QueryId(old(self).next()),
            final(self).next() == old(self).next() + 1,
    {
        let query_id: usize = self.next_query_id;
        self.next_query_id += 1;
        QueryId(query_id)
    }

    /// Add known peer.
    pub fn add_known_peer(&self, peer: PeerId, addresses: Vec<Multiaddr>) -> (r: KademliaCommand)
        ensures
            r == (KademliaCommand::AddKnownPeer { peer, addresses }),
    {
        KademliaCommand::AddKnownPeer { peer, addresses }
    }

    /// Send `FIND_NODE` query to known peers.
    pub fn find_node(&mut self, peer: PeerId) -> (r: (QueryId, KademliaCommand))
        requires
            old(self).next() < usize::MAX,
        ensures
            r.0 == QueryId(old(self).next()),
            r.1 == (KademliaCommand::FindNode { peer, query_id: r.0 }),
            final(self).next() == old(self).next() + 1,
    {
        let query_id = self.next_query_id();
        (query_id, KademliaCommand::FindNode { peer, query_id })
    }

    /// Store record to DHT.
    pub fn put_record(&mut self, record: Record) -> (r: (QueryId, KademliaCommand))
        requires
            old(self).next() < usize::MAX,
        ensures
            r.0 == QueryId(old(self).next()),
            r.1 == (KademliaCommand::PutRecord { record, query_id: r.0 }),
            final(self).next() == old(self).next() + 1,
    {
        let query_id = self.next_query_id();
        (query_id, KademliaCommand::PutRecord { record, query_id })
    }

    /// Store record to DHT to the given peers.
    pub fn put_record_to_peers(
        &mut self,
        record: Record,
        peers: Vec<PeerId>,
        update_local_store: bool,
    ) -> (r: (QueryId, KademliaCommand))
        requires
            old(self).next() < usize::MAX,
        ensures
            r.0 == QueryId(old(self).next()),
            r.1 == (KademliaCommand::PutRecordToPeers {
                record,
                query_id: r.0,
                peers,
                update_local_store,
            }),
            final(self).next() == old(self).next() + 1,
    {
        let query_id = self.next_query_id();
        (
            query_id,
            KademliaCommand::PutRecordToPeers { record, query_id, peers, update_local_store },
        )
    }

    /// Get record from DHT.
    pub fn get_record(&mut self, key: RecordKey, quorum: Quorum) -> (r: (QueryId, KademliaCommand))
        requires
            old(self).next() < usize::MAX,
        ensures
            r.0 == QueryId(old(self).next()),
            r.1 == (KademliaCommand::GetRecord { key, quorum, query_id: r.0 }),
            final(self).next() == old(self).next() + 1,
    {
        let query_id = self.next_query_id();
        (query_id, KademliaCommand::GetRecord { key, quorum, query_id })
    }

    /// The outcome of a query that was tried: its number, if its command was delivered.
    pub fn tried(query_id: QueryId, delivered: bool) -> (r: Result<QueryId, ()>)
        ensures
            match r {
                Ok(id) => delivered && id == query_id,
                Err(_) => !delivered,
            },
    {
        if delivered {
            Ok(query_id)
        } else {
            Err(())
        }
    }
}

} // verus!
