//! A request-response service on top of bare substreams.
//!
//! Substreams are not told apart: the first one that opens carries the first request.

use super::handle;
use crate::collections::AssocMap;
use crate::peer_id::PeerId;
use crate::types::{ProtocolName, RequestId};
use vstd::prelude::*;

verus! {

/// How much is read of a request or of a response at most.
pub const READ_BUFFER_SIZE: usize = 2048;

/// Events emitted by [`RequestResponseService`].
#[allow(inconsistent_fields)]
#[derive(Debug, PartialEq, Eq)]
pub enum ServiceEvent {
    /// Request received from remote peer.
    RequestReceived {
        /// Remote peer ID.
        peer: PeerId,
        /// Request ID.
        request_id: RequestId,
        /// Received request.
        request: Vec<u8>,
    },
    /// Response received from remote peer.
    ResponseReceived {
        /// ID for the request this is a response to.
        request: RequestId,
        /// Response.
        response: Vec<u8>,
    },
}

/// What the transport is to do.
#[derive(Debug, PartialEq, Eq)]
pub enum TransportCommand {
    /// Open a substream.
    OpenSubstream {
        /// Protocol.
        protocol: ProtocolName,
        /// Peer ID.
        peer: PeerId,
    },
}

/// A request whose substream is being opened.
#[derive(Debug, PartialEq, Eq)]
pub struct OpenInitiated {
    /// Request ID.
    pub request_id: RequestId,
    /// Request.
    pub request: Vec<u8>,
}

/// What is left to do for the caller.
#[derive(Debug, PartialEq, Eq)]
pub enum ServiceAction<S> {
    /// Read a request of `peer` from `substream`.
    ReadRequest {
        /// Remote peer ID.
        peer: PeerId,
        /// Substream.
        substream: S,
    },
    /// Send a request over `substream` and read its response.
    SendRequest {
        /// Request ID.
        request_id: RequestId,
        /// Request.
        request: Vec<u8>,
        /// Substream.
        substream: S,
    },
}

/// The requests that are under way.
#[verifier::ext_equal]
pub struct ServiceView<S> {
    /// Next available request ID.
    pub next_request_id: RequestId,
    /// Next available request ID for associating inbound requests with outbound responses.
    pub next_inbound_request_id: RequestId,
    /// Requests whose substreams are being opened, in the order in which they were made.
    pub pending_requests: Seq<OpenInitiated>,
    /// Substreams of the inbound requests that wait for a response.
    pub pending_responses: Map<RequestId, S>,
}

/// Service which can be used by a protocol to send requests and responses.
pub struct RequestResponseService<S> {
    /// Next available request ID.
    next_request_id: RequestId,
    /// Next available request ID for associating inbound requests with outbound responses.
    next_inbound_request_id: RequestId,
    /// Protocol.
    protocol: ProtocolName,
    /// Pending requests
    pending_requests: Vec<OpenInitiated>,
    /// Pending outbound responses.
    pending_responses: AssocMap<RequestId, S>,
}

impl<S> View for RequestResponseService<S> {
    type V = ServiceView<S>;

    closed spec fn view(&self) -> ServiceView<S> {
        ServiceView {
            next_request_id: self.next_request_id,
            next_inbound_request_id: self.next_inbound_request_id,
            pending_requests: self.pending_requests@,
            pending_responses: self.pending_responses@,
        }
    }
}

/// The request ID that follows.
fn following(id: RequestId) -> (r: RequestId)
    ensures
        r == handle::following(id),
{
    if id.0 == usize::MAX {
        RequestId(0)
    } else {
        RequestId(id.0 + 1)
    }
}

impl<S> RequestResponseService<S> {
    /// The protocol.
    pub closed spec fn protocol(self) -> Seq<char> {
        self.protocol@
    }

    /// Create new [`RequestResponseService`].
    pub fn new(protocol: ProtocolName) -> (r: Self)
        ensures
            r@ == (ServiceView::<S> {
                next_request_id: RequestId(0),
                next_inbound_request_id: RequestId(0),
                pending_requests: Seq::empty(),
                pending_responses: Map::empty(),
            }),
            r.protocol() == protocol@,
    {
        let r = RequestResponseService {
            next_request_id: RequestId(0),
            next_inbound_request_id: RequestId(0),
            protocol,
            pending_requests: Vec::new(),
            pending_responses: AssocMap::new(),
        };
        assert(r@.pending_requests =~= Seq::empty());
        r
    }

    /// Get the next request ID.
    pub fn next_request_id(&mut self) -> (r: RequestId)
        ensures
            r == old(self)@.next_request_id,
            final(self)@ == (ServiceView {
                next_request_id: handle::following(r),
                ..old(self)@
            }),
            final(self).protocol() == old(self).protocol(),
    {
        let request_id = self.next_request_id;
        self.next_request_id = following(request_id);
        request_id
    }

    /// Get the next request ID for an inbound request.
    pub fn next_inbound_request_id(&mut self) -> (r: RequestId)
        ensures
            r == old(self)@.next_inbound_request_id,
            final(self)@ == (ServiceView {
                next_inbound_request_id: handle::following(r),
                ..old(self)@
            }),
            final(self).protocol() == old(self).protocol(),
    {
        let request_id = self.next_inbound_request_id;
        self.next_inbound_request_id = following(request_id);
        request_id
    }

    /// Attempt to send request to remote peer.
    ///
    /// This function only initiates the request by opening a substream. Once the substream has been
    /// opened, the request is sent over it. The returned [`RequestId`] can be used to associate
    /// incoming responses to sent requests.
    pub fn send_request(&mut self, peer: PeerId, request: Vec<u8>) -> (r: (
        RequestId,
        TransportCommand,
    ))
        ensures
            r.0 == old(self)@.next_request_id,
            r.1 matches TransportCommand::OpenSubstream { protocol, peer: p } && protocol@
                == old(self).protocol() && p == peer,
            final(self)@ == (ServiceView {
                next_request_id: handle::following(r.0),
                pending_requests: old(self)@.pending_requests.push(
                    OpenInitiated { request_id: r.0, request },
                ),
                ..old(self)@
            }),
            final(self).protocol() == old(self).protocol(),
    {
        let request_id = self.next_request_id();
        self.pending_requests.push(OpenInitiated { request_id, request });
        (request_id, TransportCommand::OpenSubstream { protocol: self.protocol.clone(), peer })
    }

    /// Send response: the substream that it goes over.
    ///
    /// The request must be one that waits for a response.
    pub fn send_response(&mut self, request: RequestId) -> (r: S)
        requires
            old(self)@.pending_responses.contains_key(request),
        ensures
            r == old(self)@.pending_responses[request],
            final(self)@ == (ServiceView {
                pending_responses: old(self)@.pending_responses.remove(request),
                ..old(self)@
            }),
            final(self).protocol() == old(self).protocol(),
    {
        self.pending_responses.remove(&request).unwrap()
    }

    /// Whether a request waits for a response.
    pub fn awaits_response(&self, request: &RequestId) -> (r: bool)
        ensures
            r == self@.pending_responses.contains_key(*request),
    {
        self.pending_responses.contains_key(request)
    }

    /// Handle inbound substream.
    pub fn handle_inbound_substream(&self, peer: PeerId, substream: S) -> (r: ServiceAction<S>)
        ensures
            r == (ServiceAction::ReadRequest { peer, substream }),
    {
        ServiceAction::ReadRequest { peer, substream }
    }

    /// Handle outbound substream: it carries the first request that waits for one.
    pub fn handle_outbound_substream(&mut self, substream: S) -> (r: Option<ServiceAction<S>>)
        ensures
            final(self).protocol() == old(self).protocol(),
            if old(self)@.pending_requests.len() > 0 {
                let first = old(self)@.pending_requests[0];
                &&& r == Some(
                    ServiceAction::SendRequest {
                        request_id: first.request_id,
                        request: first.request,
                        substream,
                    },
                )
                &&& final(self)@ == (ServiceView {
                    pending_requests: old(self)@.pending_requests.skip(1),
                    ..old(self)@
                })
            } else {
                r is None && final(self)@ == old(self)@
            },
    {
        if self.pending_requests.len() == 0 {
            return None;
        }
        let first = self.pending_requests.remove(0);
        assert(self@.pending_requests =~= old(self)@.pending_requests.skip(1));
        Some(
            ServiceAction::SendRequest {
                request_id: first.request_id,
                request: first.request,
                substream,
            },
        )
    }

    /// The response to a request has been read.
    pub fn on_response(&self, request: RequestId, response: Vec<u8>) -> (r: ServiceEvent)
        ensures
            r == (ServiceEvent::ResponseReceived { request, response }),
    {
        ServiceEvent::ResponseReceived { request, response }
    }

    /// A request of `peer` has been read from `substream`, which is kept for the response.
    pub fn on_request(&mut self, peer: PeerId, request: Vec<u8>, substream: S) -> (r: ServiceEvent)
        ensures
            r == (ServiceEvent::RequestReceived {
                peer,
                request_id: old(self)@.next_inbound_request_id,
                request,
            }),
            final(self)@ == (ServiceView {
                next_inbound_request_id: handle::following(old(self)@.next_inbound_request_id),
                pending_responses: old(self)@.pending_responses.insert(
                    old(self)@.next_inbound_request_id,
                    substream,
                ),
                ..old(self)@
            }),
            final(self).protocol() == old(self).protocol(),
    {
        let request_id = self.next_inbound_request_id();
        let _ = self.pending_responses.insert(request_id, substream);
        ServiceEvent::RequestReceived { peer, request_id, request }
    }
}

} // verus!
