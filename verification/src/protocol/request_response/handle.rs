//! What the user and the request-response protocol tell each other.

use crate::peer_id::PeerId;
use crate::types;
use crate::types::{ProtocolName, RequestId};
use vstd::prelude::*;

verus! {

/// Request-response error.
#[derive(Clone, Copy, Debug, PartialEq, Eq, Structural)]
pub enum RequestResponseError {
    /// Request was rejected.
    Rejected,
    /// Request was canceled by the local node.
    Canceled,
    /// Request timed out.
    Timeout,
    /// The local node isn't connected to the peer.
    NotConnected,
    /// Request is too large.
    TooLargePayload,
    /// The remote peer doesn't support the protocol.
    UnsupportedProtocol,
}

/// What to do with a request to a peer that there is no connection to.
#[derive(Clone, Copy, Debug, PartialEq, Eq, Structural)]
pub enum DialOptions {
    /// Dial the peer and send the request once there is a connection.
    Dial,
    /// Let the request fail.
    Reject,
}

/// Request-response events.
#[derive(Debug, PartialEq, Eq)]
pub enum RequestResponseEvent {
    /// Request received from remote.
    RequestReceived {
        /// Peer Id.
        peer: PeerId,
        /// Fallback protocol, if the substream was negotiated with one.
        fallback: Option<ProtocolName>,
        /// Request ID.
        ///
        /// The response is sent, or the request is rejected, under this ID.
        request_id: RequestId,
        /// Received request.
        request: Vec<u8>,
    },
    /// Response received.
    ResponseReceived {
        /// Peer Id.
        peer: PeerId,
        /// Request ID.
        request_id: RequestId,
        /// Fallback protocol, if the substream was negotiated with one.
        fallback: Option<ProtocolName>,
        /// Received response.
        response: Vec<u8>,
    },
    /// Request failed.
    RequestFailed {
        /// Peer Id.
        peer: PeerId,
        /// Request ID.
        request_id: RequestId,
        /// Request-response error.
        error: RequestResponseError,
    },
}

/// Request-response events, with names and bytes by their views.
pub enum EventView {
    /// Request received from remote.
    RequestReceived {
        /// Peer Id.
        peer: PeerId,
        /// Fallback protocol.
        fallback: Option<Seq<char>>,
        /// Request ID.
        request_id: RequestId,
        /// Received request.
        request: Seq<u8>,
    },
    /// Response received.
    ResponseReceived {
        /// Peer Id.
        peer: PeerId,
        /// Request ID.
        request_id: RequestId,
        /// Fallback protocol.
        fallback: Option<Seq<char>>,
        /// Received response.
        response: Seq<u8>,
    },
    /// Request failed.
    RequestFailed {
        /// Peer Id.
        peer: PeerId,
        /// Request ID.
        request_id: RequestId,
        /// Request-response error.
        error: RequestResponseError,
    },
}

impl View for RequestResponseEvent {
    type V = EventView;

    open spec fn view(&self) -> EventView {
        match *self {
            RequestResponseEvent::RequestReceived { peer, fallback, request_id, request } =>
                EventView::RequestReceived {
                    peer,
                    fallback: types::fallback_view(fallback),
                    request_id,
                    request: request@,
                },
            RequestResponseEvent::ResponseReceived { peer, request_id, fallback, response } =>
                EventView::ResponseReceived {
                    peer,
                    request_id,
                    fallback: types::fallback_view(fallback),
                    response: response@,
                },
            RequestResponseEvent::RequestFailed { peer, request_id, error } =>
                EventView::RequestFailed { peer, request_id, error },
        }
    }
}

/// Request-response commands.
#[derive(Debug, PartialEq, Eq)]
pub enum RequestResponseCommand {
    /// Send request to remote peer.
    SendRequest {
        /// Peer ID.
        peer: PeerId,
        /// Request ID.
        ///
        /// When a response is received or the request fails, the event contains this ID that
        /// the user protocol can associate with the correct request.
        ///
        /// If the user protocol only has one active request per peer, this ID can be safely
        /// discarded.
        request_id: RequestId,
        /// Request.
        request: Vec<u8>,
        /// What to do if the peer is not connected.
        dial_options: DialOptions,
    },
    /// Send request to remote peer, in one of two forms.
    SendRequestWithFallback {
        /// Peer ID.
        peer: PeerId,
        /// Request ID.
        request_id: RequestId,
        /// Request for the main protocol.
        request: Vec<u8>,
        /// Fallback protocol, and the request that is sent if the substream is negotiated with it.
        fallback: (ProtocolName, Vec<u8>),
        /// What to do if the peer is not connected.
        dial_options: DialOptions,
    },
    /// Cancel outbound request.
    CancelRequest {
        /// Request ID.
        request_id: RequestId,
    },
    /// Send response.
    SendResponse {
        /// Request ID.
        ///
        /// This is the request ID that was received in
        /// [`RequestResponseEvent::RequestReceived`].
        request_id: RequestId,
        /// Response.
        response: Vec<u8>,
    },
    /// Reject request.
    RejectRequest {
        /// Request ID.
        request_id: RequestId,
    },
}

/// Handle given to the user protocol which allows it to interact with the request-response
/// protocol: it makes the commands and hands out the request IDs.
pub struct RequestResponseHandle {
    /// Next ephemeral request ID.
    next_request_id: usize,
}

/// A request as a peer is to get it.
pub open spec fn is_send_request(
    command: RequestResponseCommand,
    peer: PeerId,
    request_id: RequestId,
    request: Seq<u8>,
    dial_options: DialOptions,
) -> bool {
    command matches RequestResponseCommand::SendRequest {
        peer: p,
        request_id: id,
        request: r,
        dial_options: d,
    } && p == peer && id == request_id && r@ == request && d == dial_options
}

impl View for RequestResponseHandle {
    type V = RequestId;

    /// The next request ID.
    closed spec fn view(&self) -> RequestId {
        RequestId(self.next_request_id)
    }
}

/// The request ID that follows: the IDs start over once they have all been used.
pub open spec fn following(id: RequestId) -> RequestId {
    RequestId(
        if id.0 == usize::MAX {
            0
        } else {
            (id.0 + 1) as usize
        },
    )
}

impl RequestResponseHandle {
    /// Create new [`RequestResponseHandle`].
    pub fn new() -> (r: Self)
        ensures
            r@ == RequestId(0),
    {
        RequestResponseHandle { next_request_id: 0 }
    }

    /// Get next ephemeral request ID.
    pub fn next_request_id(&mut self) -> (r: RequestId)
        ensures
            r == old(self)@,
            final(self)@ == following(old(self)@),
    {
        let request_id: usize = self.next_request_id;
        self.next_request_id = if request_id == usize::MAX {
            0
        } else {
            request_id + 1
        };
        RequestId(request_id)
    }

    /// Reject request.
    pub fn reject_request(&self, request_id: RequestId) -> (r: RequestResponseCommand)
        ensures
            r == (RequestResponseCommand::RejectRequest { request_id }),
    {
        RequestResponseCommand::RejectRequest { request_id }
    }

    /// Cancel outbound request.
    pub fn cancel_request(&self, request_id: RequestId) -> (r: RequestResponseCommand)
        ensures
            r == (RequestResponseCommand::CancelRequest { request_id }),
    {
        RequestResponseCommand::CancelRequest { request_id }
    }

    /// Send request to remote peer.
    pub fn send_request(
        &mut self,
        peer: PeerId,
        request: Vec<u8>,
        dial_options: DialOptions,
    ) -> (r: (RequestId, RequestResponseCommand))
        ensures
            r.0 == old(self)@,
            is_send_request(r.1, peer, r.0, request@, dial_options),
            final(self)@ == following(old(self)@),
    {
        let request_id = self.next_request_id();
        (
            request_id,
            RequestResponseCommand::SendRequest { peer, request_id, request, dial_options },
        )
    }

    /// Send response to remote peer.
    pub fn send_response(&self, request_id: RequestId, response: Vec<u8>) -> (r:
        RequestResponseCommand)
        ensures
            r == (RequestResponseCommand::SendResponse { request_id, response }),
    {
        RequestResponseCommand::SendResponse { request_id, response }
    }
}

/// No two requests in a row have the same ID, and an ID comes back only after all others.
pub proof fn law_request_ids_differ(a: RequestId, b: RequestId)
    ensures
        following(a) != a,
        following(a) == following(b) ==> a == b,
        a.0 < usize::MAX ==> following(a).0 == a.0 + 1,
{
}

} // verus!
