//! What becomes of the messages of queries.

use super::node::QueryResult;
use super::query::QueryId;
use super::schema;
use crate::peer_id::PeerId;
use vstd::prelude::*;

verus! {

/// Read timeout for inbound messages, in nanoseconds.
pub const READ_TIMEOUT: u64 = 15_000_000_000;

/// Query result.
#[derive(Debug, PartialEq, Eq)]
pub struct QueryContext<S> {
    /// Peer ID.
    pub peer: PeerId,
    /// Query ID.
    pub query_id: Option<QueryId>,
    /// Query result.
    pub result: QueryResult<S>,
}

/// How reading a message within the timeout went.
#[derive(Debug, PartialEq, Eq)]
pub enum ReadOutcome {
    /// The timeout expired.
    TimedOut,
    /// A message was read, and could be decoded or not.
    Message(Option<schema::Message>),
    /// The substream was closed or failed.
    Closed,
}

/// The outcome of a read.
pub open spec fn read_result<S>(substream: S, outcome: ReadOutcome) -> QueryResult<S> {
    match outcome {
        ReadOutcome::TimedOut => QueryResult::Timeout,
        ReadOutcome::Message(message) => QueryResult::ReadSuccess { substream, message },
        ReadOutcome::Closed => QueryResult::SubstreamClosed,
    }
}

/// Send message to remote peer: `sent` says whether that worked.
pub fn send_message<S>(peer: PeerId, substream: S, sent: bool) -> (r: QueryContext<S>)
    ensures
        r == (QueryContext {
            peer,
            query_id: None,
            result: if sent {
                QueryResult::SendSuccess { substream }
            } else {
                QueryResult::SubstreamClosed
            },
        }),
{
    if sent {
        QueryContext { peer, query_id: None, result: QueryResult::SendSuccess { substream } }
    } else {
        QueryContext { peer, query_id: None, result: QueryResult::SubstreamClosed }
    }
}

/// Read message from remote peer with timeout: `outcome` says how that went.
pub fn read_message<S>(
    peer: PeerId,
    query_id: Option<QueryId>,
    substream: S,
    outcome: ReadOutcome,
) -> (r: QueryContext<S>)
    ensures
        r == (QueryContext { peer, query_id, result: read_result(substream, outcome) }),
{
    let result = match outcome {
        ReadOutcome::TimedOut => QueryResult::Timeout,
        ReadOutcome::Message(message) => QueryResult::ReadSuccess { substream, message },
        ReadOutcome::Closed => QueryResult::SubstreamClosed,
    };
    QueryContext { peer, query_id, result }
}

/// Send request to remote peer and read response: `outcome` says how reading went, and is `None`
/// where the request could not be sent.
pub fn send_request_read_response<S>(
    peer: PeerId,
    query_id: Option<QueryId>,
    substream: S,
    outcome: Option<ReadOutcome>,
) -> (r: QueryContext<S>)
    ensures
        r == (QueryContext {
            peer,
            query_id,
            result: match outcome {
                Some(outcome) => read_result(substream, outcome),
                None => QueryResult::SubstreamClosed,
            },
        }),
{
    match outcome {
        Some(outcome) => read_message(peer, query_id, substream, outcome),
        None => QueryContext { peer, query_id, result: QueryResult::SubstreamClosed },
    }
}

/// A message that was read is handed on with its substream, and a read that fails says whether
/// that was for want of time.
pub proof fn law_reads_reported<S>(substream: S, message: Option<schema::Message>)
    ensures
        read_result(substream, ReadOutcome::Message(message)) == (QueryResult::ReadSuccess {
            substream,
            message,
        }),
        read_result(substream, ReadOutcome::TimedOut) is Timeout,
        read_result(substream, ReadOutcome::Closed) is SubstreamClosed,
{
}

} // verus!
