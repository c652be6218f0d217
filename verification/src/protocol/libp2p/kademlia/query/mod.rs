//! Queries.

use super::record::{PeerRecord, Record};
use super::schema;
use super::types::KademliaPeer;
use crate::collections::MapKey;
use crate::peer_id::PeerId;
use vstd::prelude::*;

pub mod candidates;
pub mod engine;
pub mod find_node;
pub mod get_providers;
pub mod get_record;
pub mod laws;
pub mod put_record;

verus! {

/// Type representing a query ID.
#[derive(Clone, Copy, Debug, PartialEq, Eq, Structural, Hash)]
pub struct QueryId(pub usize);

impl View for QueryId {
    type V = QueryId;

    open spec fn view(&self) -> QueryId {
        *self
    }
}

impl MapKey for QueryId {
    fn same(&self, other: &Self) -> (r: bool) {
        self.0 == other.0
    }
}

/// Query action.
#[derive(Debug, PartialEq, Eq)]
pub enum QueryAction {
    /// Send message to peer.
    SendMessage {
        /// Query ID.
        query: QueryId,
        /// Peer.
        peer: PeerId,
        /// Message.
        message: schema::Message,
    },
    /// `FIND_NODE` query succeeded.
    FindNodeQuerySucceeded {
        /// ID of the query that succeeded.
        query: QueryId,
        /// Target peer.
        target: PeerId,
        /// Peers that were found.
        peers: Vec<KademliaPeer>,
    },
    /// Store the record to nodes closest to target key.
    PutRecordToFoundNodes {
        /// Record to store.
        record: Record,
        /// Peers for whom the `PUT_VALUE` must be sent to.
        peers: Vec<KademliaPeer>,
    },
    /// `GET_VALUE` query succeeded.
    GetRecordQueryDone {
        /// Query ID.
        query_id: QueryId,
        /// Found records.
        records: Vec<PeerRecord>,
    },
    /// Query succeeded.
    QuerySucceeded {
        /// ID of the query that succeeded.
        query: QueryId,
    },
    /// Query failed.
    QueryFailed {
        /// ID of the query that failed.
        query: QueryId,
    },
}

/// Query action, with the message by its view.
pub enum QueryActionView {
    /// Send message to peer.
    SendMessage {
        /// Query ID.
        query: QueryId,
        /// Peer.
        peer: PeerId,
        /// Message.
        message: schema::MessageView,
    },
    /// `FIND_NODE` query succeeded.
    FindNodeQuerySucceeded {
        /// ID of the query that succeeded.
        query: QueryId,
        /// Target peer.
        target: PeerId,
        /// Peers that were found.
        peers: Seq<KademliaPeer>,
    },
    /// Store the record to nodes closest to target key.
    PutRecordToFoundNodes {
        /// Record to store.
        record: Record,
        /// Peers for whom the `PUT_VALUE` must be sent to.
        peers: Seq<KademliaPeer>,
    },
    /// `GET_VALUE` query succeeded.
    GetRecordQueryDone {
        /// Query ID.
        query_id: QueryId,
        /// Found records.
        records: Seq<PeerRecord>,
    },
    /// Query succeeded.
    QuerySucceeded {
        /// ID of the query that succeeded.
        query: QueryId,
    },
    /// Query failed.
    QueryFailed {
        /// ID of the query that failed.
        query: QueryId,
    },
}

impl View for QueryAction {
    type V = QueryActionView;

    open spec fn view(&self) -> QueryActionView {
        match *self {
            QueryAction::SendMessage { query, peer, message } => QueryActionView::SendMessage {
                query,
                peer,
                message: message@,
            },
            QueryAction::FindNodeQuerySucceeded { query, target, peers } =>
                QueryActionView::FindNodeQuerySucceeded { query, target, peers: peers@ },
            QueryAction::PutRecordToFoundNodes { record, peers } =>
                QueryActionView::PutRecordToFoundNodes { record, peers: peers@ },
            QueryAction::GetRecordQueryDone { query_id, records } =>
                QueryActionView::GetRecordQueryDone { query_id, records: records@ },
            QueryAction::QuerySucceeded { query } => QueryActionView::QuerySucceeded { query },
            QueryAction::QueryFailed { query } => QueryActionView::QueryFailed { query },
        }
    }
}

} // verus!
