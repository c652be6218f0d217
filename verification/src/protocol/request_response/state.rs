//! The state of the request-response protocol, and what each input makes of it.

use super::handle::{
    DialOptions, EventView, RequestResponseCommand, RequestResponseError, RequestResponseEvent,
};
use crate::error::{Error, NegotiationError, SubstreamError};
use crate::peer_id::PeerId;
use crate::protocol::{Direction, TransportEvent};
use crate::types;
use crate::types::{ProtocolName, RequestId, SubstreamId};
use vstd::prelude::*;

verus! {

/// Request context, with names and bytes by their views.
pub struct RequestView {
    /// Peer ID.
    pub peer: PeerId,
    /// Request ID.
    pub request_id: RequestId,
    /// Request.
    pub request: Seq<u8>,
    /// Fallback protocol and the request for it.
    pub fallback: Option<(Seq<char>, Seq<u8>)>,
}

/// What is under way with a connected peer.
#[verifier::ext_equal]
pub struct PeerView {
    /// Active requests.
    pub active: Set<RequestId>,
    /// Active inbound requests and their fallback names.
    pub active_inbound: Map<RequestId, Option<Seq<char>>>,
}

impl PeerView {
    /// Nothing is under way.
    pub open spec fn idle() -> Self {
        PeerView { active: Set::empty(), active_inbound: Map::empty() }
    }

    /// A request has been sent off.
    pub open spec fn with_active(self, request_id: RequestId) -> Self {
        PeerView { active: self.active.insert(request_id), ..self }
    }

    /// A request is over.
    pub open spec fn without_active(self, request_id: RequestId) -> Self {
        PeerView { active: self.active.remove(request_id), ..self }
    }
}

/// The state of the protocol.
#[verifier::ext_equal]
pub struct ProtocolView {
    /// Connected peers.
    pub peers: Map<PeerId, PeerView>,
    /// Requests that wait for their outbound substream.
    pub pending_outbound: Map<SubstreamId, RequestView>,
    /// Requests that wait for a connection to their peer.
    pub pending_dials: Map<PeerId, RequestView>,
    /// Requests that can be canceled.
    pub pending_outbound_cancels: Set<RequestId>,
    /// Inbound requests that are being read.
    pub pending_inbound_requests: Set<(PeerId, RequestId)>,
    /// Inbound requests that have been read and are not done with. Those whose entry is `true` wait
    /// for the decision of the user.
    pub pending_outbound_responses: Map<RequestId, bool>,
    /// Maximum concurrent inbound requests, if there is one.
    pub max_concurrent_inbound_requests: Option<usize>,
}

/// What is left to do for the caller.
#[derive(Debug, PartialEq, Eq)]
pub enum Action<S> {
    /// Report an event to the user.
    Report(RequestResponseEvent),
    /// Send a request over `substream` and wait for its response, both within the timeout.
    SendRequest {
        /// Peer ID.
        peer: PeerId,
        /// Request ID.
        request_id: RequestId,
        /// Fallback protocol, if the substream was negotiated with one.
        fallback: Option<ProtocolName>,
        /// Request.
        request: Vec<u8>,
        /// Substream.
        substream: S,
    },
    /// Cancel a request that is being sent or waits for its response.
    CancelRequest {
        /// Request ID.
        request_id: RequestId,
    },
    /// Read a request from `substream`.
    ReadRequest {
        /// Peer ID.
        peer: PeerId,
        /// Request ID.
        request_id: RequestId,
        /// Substream.
        substream: S,
    },
    /// Drop the substream that a request was read from.
    DiscardRequest {
        /// Peer ID.
        peer: PeerId,
        /// Request ID.
        request_id: RequestId,
    },
    /// Keep the substream that a request was read from for the response.
    AwaitResponse {
        /// Peer ID.
        peer: PeerId,
        /// Request ID.
        request_id: RequestId,
    },
    /// Send the response over the substream of a request, within the timeout.
    SendResponse {
        /// Request ID.
        request_id: RequestId,
        /// Response.
        response: Vec<u8>,
    },
    /// Close the substream of a request.
    RejectRequest {
        /// Request ID.
        request_id: RequestId,
    },
    /// Tell the user that the response has been sent.
    ResponseSent {
        /// Request ID.
        request_id: RequestId,
    },
    /// Close `substream`.
    CloseSubstream {
        /// Substream.
        substream: S,
    },
}

/// What is left to do for the caller, with names and bytes by their views.
pub enum ActionView<S> {
    /// Report an event to the user.
    Report(EventView),
    /// Send a request and wait for its response.
    SendRequest {
        /// Peer ID.
        peer: PeerId,
        /// Request ID.
        request_id: RequestId,
        /// Fallback protocol.
        fallback: Option<Seq<char>>,
        /// Request.
        request: Seq<u8>,
        /// Substream.
        substream: S,
    },
    /// Cancel a request.
    CancelRequest {
        /// Request ID.
        request_id: RequestId,
    },
    /// Read a request.
    ReadRequest {
        /// Peer ID.
        peer: PeerId,
        /// Request ID.
        request_id: RequestId,
        /// Substream.
        substream: S,
    },
    /// Drop the substream of a request.
    DiscardRequest {
        /// Peer ID.
        peer: PeerId,
        /// Request ID.
        request_id: RequestId,
    },
    /// Keep the substream of a request.
    AwaitResponse {
        /// Peer ID.
        peer: PeerId,
        /// Request ID.
        request_id: RequestId,
    },
    /// Send a response.
    SendResponse {
        /// Request ID.
        request_id: RequestId,
        /// Response.
        response: Seq<u8>,
    },
    /// Close the substream of a request.
    RejectRequest {
        /// Request ID.
        request_id: RequestId,
    },
    /// Tell the user that the response has been sent.
    ResponseSent {
        /// Request ID.
        request_id: RequestId,
    },
    /// Close a substream.
    CloseSubstream {
        /// Substream.
        substream: S,
    },
}

impl<S> View for Action<S> {
    type V = ActionView<S>;

    open spec fn view(&self) -> ActionView<S> {
        match *self {
            Action::Report(event) => ActionView::Report(event@),
            Action::SendRequest { peer, request_id, fallback, request, substream } =>
                ActionView::SendRequest {
                    peer,
                    request_id,
                    fallback: types::fallback_view(fallback),
                    request: request@,
                    substream,
                },
            Action::CancelRequest { request_id } => ActionView::CancelRequest { request_id },
            Action::ReadRequest { peer, request_id, substream } => ActionView::ReadRequest {
                peer,
                request_id,
                substream,
            },
            Action::DiscardRequest { peer, request_id } => ActionView::DiscardRequest {
                peer,
                request_id,
            },
            Action::AwaitResponse { peer, request_id } => ActionView::AwaitResponse {
                peer,
                request_id,
            },
            Action::SendResponse { request_id, response } => ActionView::SendResponse {
                request_id,
                response: response@,
            },
            Action::RejectRequest { request_id } => ActionView::RejectRequest { request_id },
            Action::ResponseSent { request_id } => ActionView::ResponseSent { request_id },
            Action::CloseSubstream { substream } => ActionView::CloseSubstream { substream },
        }
    }
}

/// Actions by their views.
pub open spec fn action_views<S>(actions: Seq<Action<S>>) -> Seq<ActionView<S>> {
    Seq::new(actions.len(), |i: int| actions[i]@)
}

/// One more action is one more view.
pub proof fn lemma_action_views_push<S>(actions: Seq<Action<S>>, action: Action<S>)
    ensures
        action_views(actions.push(action)) == action_views(actions).push(action@),
{
    assert(action_views(actions.push(action)) =~= action_views(actions).push(action@));
}

/// What the transport and the request IDs have to say to an input.
#[derive(Clone, Copy, Debug, PartialEq, Eq, Structural)]
pub struct Answers {
    /// The ID that an inbound request gets.
    pub request_id: RequestId,
    /// The substream that the transport has started to open, if it was asked for one and could.
    pub opened: Option<SubstreamId>,
    /// Whether the transport has started to dial the peer, if it was asked to.
    pub dialed: bool,
}

/// What happens next in the life of the protocol.
#[derive(Debug, PartialEq, Eq)]
pub enum ProtocolInput<S> {
    /// An event of the transport.
    Transport(TransportEvent<S>),
    /// A request has its response, or has failed.
    SubstreamEvent {
        /// Peer ID.
        peer: PeerId,
        /// Request ID.
        request_id: RequestId,
        /// Fallback protocol, if the substream was negotiated with one.
        fallback: Option<ProtocolName>,
        /// Response, or why there is none.
        message: Result<Vec<u8>, RequestResponseError>,
    },
    /// The response to an inbound request is out of the way.
    ResponseFinished {
        /// Request ID.
        request_id: RequestId,
        /// Whether a response was sent.
        sent: bool,
    },
    /// An inbound request has been read, or could not be read.
    InboundRequest {
        /// Peer ID.
        peer: PeerId,
        /// Request ID.
        request_id: RequestId,
        /// Request.
        request: Result<Vec<u8>, Error>,
    },
    /// A command of the user.
    Command(RequestResponseCommand),
    /// One of the channels is closed.
    Exhausted,
}

/// A request, if it could be read.
pub open spec fn read_view(request: Result<Vec<u8>, Error>) -> Option<Seq<u8>> {
    match request {
        Ok(request) => Some(request@),
        Err(_) => None,
    }
}

/// A response, or why there is none.
pub open spec fn message_view(message: Result<Vec<u8>, RequestResponseError>) -> Result<
    Seq<u8>,
    RequestResponseError,
> {
    match message {
        Ok(response) => Ok(response@),
        Err(error) => Err(error),
    }
}

/// The report that a request has failed.
pub open spec fn request_failed<S>(
    peer: PeerId,
    request_id: RequestId,
    error: RequestResponseError,
) -> ActionView<S> {
    ActionView::Report(EventView::RequestFailed { peer, request_id, error })
}

/// The form of a request that goes over a substream: the one for the fallback protocol if the
/// substream was negotiated with it.
pub open spec fn negotiated_request(request: RequestView, fallback: Option<Seq<char>>) -> Seq<u8> {
    match (fallback, request.fallback) {
        (Some(negotiated), Some((name, fallback_request))) => if negotiated == name {
            fallback_request
        } else {
            request.request
        },
        _ => request.request,
    }
}

/// Why a request fails whose substream could not be opened.
pub open spec fn open_failure_reason(error: Error) -> RequestResponseError {
    match error {
        Error::SubstreamError(
            SubstreamError::NegotiationError(NegotiationError::MultistreamSelectFailed),
        ) => RequestResponseError::UnsupportedProtocol,
        _ => RequestResponseError::Rejected,
    }
}

/// Whether `order` holds each element of `ids` once and nothing else.
pub open spec fn lists(order: Seq<RequestId>, ids: Set<RequestId>) -> bool {
    order.no_duplicates() && order.to_set() == ids
}

/// What is left to do when the connection to `peer` closes: the requests in `active` have failed
/// and those in `inbound` are dropped.
pub open spec fn closed_actions<S>(
    peer: PeerId,
    active: Seq<RequestId>,
    inbound: Seq<RequestId>,
) -> Seq<ActionView<S>> {
    Seq::new(
        active.len(),
        |i: int| request_failed(peer, active[i], RequestResponseError::Rejected),
    ) + Seq::new(
        inbound.len(),
        |i: int| ActionView::DiscardRequest { peer, request_id: inbound[i] },
    )
}

/// One more active request is one more report, if no inbound request is dropped yet.
pub proof fn lemma_closed_active<S>(peer: PeerId, active: Seq<RequestId>, id: RequestId)
    ensures
        closed_actions::<S>(peer, active.push(id), Seq::empty()) == closed_actions::<S>(
            peer,
            active,
            Seq::empty(),
        ).push(request_failed(peer, id, RequestResponseError::Rejected)),
{
    assert(closed_actions::<S>(peer, active.push(id), Seq::empty()) =~= closed_actions::<S>(
        peer,
        active,
        Seq::empty(),
    ).push(request_failed(peer, id, RequestResponseError::Rejected)));
}

/// One more inbound request is one more substream to drop.
pub proof fn lemma_closed_inbound<S>(
    peer: PeerId,
    active: Seq<RequestId>,
    inbound: Seq<RequestId>,
    id: RequestId,
)
    ensures
        closed_actions::<S>(peer, active, inbound.push(id)) == closed_actions::<S>(
            peer,
            active,
            inbound,
        ).push(ActionView::DiscardRequest { peer, request_id: id }),
{
    assert(closed_actions::<S>(peer, active, inbound.push(id)) =~= closed_actions::<S>(
        peer,
        active,
        inbound,
    ).push(ActionView::DiscardRequest { peer, request_id: id }));
}

/// Whether `actions` are what is left to do when the connection to `peer` closes, in some order.
pub open spec fn closes<S>(peer: PeerId, context: PeerView, actions: Seq<ActionView<S>>) -> bool {
    exists|active: Seq<RequestId>, inbound: Seq<RequestId>|
        lists(active, context.active) && lists(inbound, context.active_inbound.dom()) && actions
            == #[trigger] closed_actions::<S>(peer, active, inbound)
}

impl ProtocolView {
    /// The number of inbound requests that are being handled.
    pub open spec fn inbound_requests(self) -> nat {
        self.pending_inbound_requests.len() + self.pending_outbound_responses.dom().len()
    }

    /// Whether one more inbound request can be taken.
    pub open spec fn has_capacity(self) -> bool {
        match self.max_concurrent_inbound_requests {
            Some(max) => self.inbound_requests() < max,
            None => true,
        }
    }

    /// Puts what is under way with `peer`.
    pub open spec fn with_peer(self, peer: PeerId, context: PeerView) -> Self {
        ProtocolView { peers: self.peers.insert(peer, context), ..self }
    }

    /// A request is no longer active, if its peer is connected.
    pub open spec fn without_request(self, peer: PeerId, request_id: RequestId) -> Self {
        if self.peers.contains_key(peer) {
            self.with_peer(peer, self.peers[peer].without_active(request_id))
        } else {
            self
        }
    }

    /// The connection to `peer` is gone.
    pub open spec fn without_peer(self, peer: PeerId) -> Self {
        let inbound = self.peers[peer].active_inbound;
        ProtocolView {
            peers: self.peers.remove(peer),
            pending_inbound_requests: self.pending_inbound_requests.filter(
                |key: (PeerId, RequestId)| !(key.0 == peer && inbound.contains_key(key.1)),
            ),
            ..self
        }
    }

    /// There is a connection to `peer`.
    pub open spec fn on_connection_established<S>(
        self,
        peer: PeerId,
        opened: Option<SubstreamId>,
    ) -> (Self, Seq<ActionView<S>>) {
        let dialed = ProtocolView { pending_dials: self.pending_dials.remove(peer), ..self };
        if self.peers.contains_key(peer) {
            (self, Seq::empty())
        } else if !self.pending_dials.contains_key(peer) {
            (self.with_peer(peer, PeerView::idle()), Seq::empty())
        } else {
            let request = self.pending_dials[peer];
            match opened {
                Some(substream) => (
                    ProtocolView {
                        pending_outbound: self.pending_outbound.insert(
                            substream,
                            RequestView { peer, ..request },
                        ),
                        ..dialed.with_peer(peer, PeerView::idle().with_active(request.request_id))
                    },
                    Seq::empty(),
                ),
                None => (
                    dialed,
                    seq![request_failed(peer, request.request_id, RequestResponseError::Rejected)],
                ),
            }
        }
    }

    /// An outbound substream has opened.
    pub open spec fn on_outbound_substream<S>(
        self,
        peer: PeerId,
        id: SubstreamId,
        substream: S,
        fallback: Option<Seq<char>>,
    ) -> (Self, Seq<ActionView<S>>) {
        if self.pending_outbound.contains_key(id) {
            let request = self.pending_outbound[id];
            (
                ProtocolView {
                    pending_outbound: self.pending_outbound.remove(id),
                    pending_outbound_cancels: self.pending_outbound_cancels.insert(
                        request.request_id,
                    ),
                    ..self
                },
                seq![
                    ActionView::SendRequest {
                        peer,
                        request_id: request.request_id,
                        fallback,
                        request: negotiated_request(request, fallback),
                        substream,
                    },
                ],
            )
        } else {
            (self, Seq::empty())
        }
    }

    /// The remote peer has opened a substream.
    pub open spec fn on_inbound_substream<S>(
        self,
        peer: PeerId,
        fallback: Option<Seq<char>>,
        substream: S,
        request_id: RequestId,
    ) -> (Self, Seq<ActionView<S>>) {
        if !self.has_capacity() {
            (self, seq![ActionView::CloseSubstream { substream }])
        } else if !self.peers.contains_key(peer) {
            (self, Seq::empty())
        } else {
            let context = self.peers[peer];
            (
                ProtocolView {
                    pending_inbound_requests: self.pending_inbound_requests.insert(
                        (peer, request_id),
                    ),
                    ..self.with_peer(
                        peer,
                        PeerView {
                            active_inbound: context.active_inbound.insert(request_id, fallback),
                            ..context
                        },
                    )
                },
                seq![ActionView::ReadRequest { peer, request_id, substream }],
            )
        }
    }

    /// An inbound request has been read, or could not be read.
    pub open spec fn on_inbound_request<S>(
        self,
        peer: PeerId,
        request_id: RequestId,
        request: Option<Seq<u8>>,
    ) -> (Self, Seq<ActionView<S>>) {
        if self.peers.contains_key(peer) && self.peers[peer].active_inbound.contains_key(
            request_id,
        ) {
            let context = self.peers[peer];
            let taken = self.with_peer(
                peer,
                PeerView { active_inbound: context.active_inbound.remove(request_id), ..context },
            );
            let read = ProtocolView {
                pending_inbound_requests: self.pending_inbound_requests.remove((peer, request_id)),
                ..taken
            };
            if !self.pending_inbound_requests.contains((peer, request_id)) {
                (taken, Seq::empty())
            } else {
                match request {
                    None => (read, seq![ActionView::DiscardRequest { peer, request_id }]),
                    Some(request) => (
                        ProtocolView {
                            pending_outbound_responses: self.pending_outbound_responses.insert(
                                request_id,
                                true,
                            ),
                            ..read
                        },
                        seq![
                            ActionView::AwaitResponse { peer, request_id },
                            ActionView::Report(
                                EventView::RequestReceived {
                                    peer,
                                    fallback: context.active_inbound[request_id],
                                    request_id,
                                    request,
                                },
                            ),
                        ],
                    ),
                }
            }
        } else {
            (self, Seq::empty())
        }
    }

    /// The peer could not be dialed.
    pub open spec fn on_dial_failure<S>(self, peer: PeerId) -> (Self, Seq<ActionView<S>>) {
        if self.pending_dials.contains_key(peer) {
            let request_id = self.pending_dials[peer].request_id;
            (
                ProtocolView {
                    pending_dials: self.pending_dials.remove(peer),
                    ..self.without_request(peer, request_id)
                },
                seq![request_failed(peer, request_id, RequestResponseError::Rejected)],
            )
        } else {
            (self, Seq::empty())
        }
    }

    /// An outbound substream could not be opened.
    pub open spec fn on_substream_open_failure<S>(self, id: SubstreamId, error: Error) -> (
        Self,
        Seq<ActionView<S>>,
    ) {
        if self.pending_outbound.contains_key(id) {
            let request = self.pending_outbound[id];
            (
                ProtocolView {
                    pending_outbound: self.pending_outbound.remove(id),
                    ..self.without_request(request.peer, request.request_id)
                },
                seq![request_failed(request.peer, request.request_id, open_failure_reason(error))],
            )
        } else {
            (self, Seq::empty())
        }
    }

    /// The user has a request for `peer`.
    pub open spec fn on_send_request<S>(
        self,
        request: RequestView,
        dial_options: DialOptions,
        opened: Option<SubstreamId>,
        dialed: bool,
    ) -> (Self, Seq<ActionView<S>>) {
        let peer = request.peer;
        let request_id = request.request_id;
        let rejected = seq![
            request_failed::<S>(peer, request_id, RequestResponseError::Rejected),
        ];
        if !self.peers.contains_key(peer) {
            match dial_options {
                DialOptions::Reject => (
                    self,
                    seq![request_failed(peer, request_id, RequestResponseError::NotConnected)],
                ),
                DialOptions::Dial => if dialed {
                    (
                        ProtocolView {
                            pending_dials: self.pending_dials.insert(peer, request),
                            ..self
                        },
                        Seq::empty(),
                    )
                } else {
                    (self, rejected)
                },
            }
        } else {
            match opened {
                Some(substream) => (
                    ProtocolView {
                        pending_outbound: self.pending_outbound.insert(substream, request),
                        ..self.with_peer(peer, self.peers[peer].with_active(request_id))
                    },
                    Seq::empty(),
                ),
                None => (self, rejected),
            }
        }
    }

    /// A request has its response, or has failed.
    pub open spec fn on_substream_event<S>(
        self,
        peer: PeerId,
        request_id: RequestId,
        fallback: Option<Seq<char>>,
        message: Result<Seq<u8>, RequestResponseError>,
    ) -> (Self, Seq<ActionView<S>>) {
        if self.peers.contains_key(peer) && self.peers[peer].active.contains(request_id) {
            (
                self.without_request(peer, request_id),
                match message {
                    Ok(response) => seq![
                        ActionView::Report(
                            EventView::ResponseReceived { peer, request_id, fallback, response },
                        ),
                    ],
                    Err(RequestResponseError::Canceled) => Seq::empty(),
                    Err(error) => seq![request_failed(peer, request_id, error)],
                },
            )
        } else {
            (self, Seq::empty())
        }
    }

    /// The user cancels a request.
    pub open spec fn on_cancel_request<S>(self, request_id: RequestId) -> (
        Self,
        Seq<ActionView<S>>,
    ) {
        if self.pending_outbound_cancels.contains(request_id) {
            (
                ProtocolView {
                    pending_outbound_cancels: self.pending_outbound_cancels.remove(request_id),
                    ..self
                },
                seq![ActionView::CancelRequest { request_id }],
            )
        } else {
            (self, Seq::empty())
        }
    }

    /// Whether an inbound request waits for the decision of the user.
    pub open spec fn awaits_response(self, request_id: RequestId) -> bool {
        self.pending_outbound_responses.contains_key(request_id)
            && self.pending_outbound_responses[request_id]
    }

    /// The user has decided on an inbound request, and `action` follows.
    pub open spec fn on_decision<S>(self, request_id: RequestId, action: ActionView<S>) -> (
        Self,
        Seq<ActionView<S>>,
    ) {
        if self.awaits_response(request_id) {
            (
                ProtocolView {
                    pending_outbound_responses: self.pending_outbound_responses.insert(
                        request_id,
                        false,
                    ),
                    ..self
                },
                seq![action],
            )
        } else {
            (self, Seq::empty())
        }
    }

    /// The response to an inbound request is out of the way.
    pub open spec fn on_response_finished<S>(self, request_id: RequestId, sent: bool) -> (
        Self,
        Seq<ActionView<S>>,
    ) {
        (
            ProtocolView {
                pending_outbound_responses: self.pending_outbound_responses.remove(request_id),
                ..self
            },
            if sent && self.pending_outbound_responses.contains_key(request_id) {
                seq![ActionView::ResponseSent { request_id }]
            } else {
                Seq::empty()
            },
        )
    }

    /// What a command of the user does.
    pub open spec fn on_command<S>(self, command: RequestResponseCommand, answers: Answers) -> (
        Self,
        Seq<ActionView<S>>,
    ) {
        match command {
            RequestResponseCommand::SendRequest { peer, request_id, request, dial_options } =>
                self.on_send_request(
                    RequestView { peer, request_id, request: request@, fallback: None },
                    dial_options,
                    answers.opened,
                    answers.dialed,
                ),
            RequestResponseCommand::SendRequestWithFallback {
                peer,
                request_id,
                request,
                fallback,
                dial_options,
            } => self.on_send_request(
                RequestView {
                    peer,
                    request_id,
                    request: request@,
                    fallback: Some((fallback.0@, fallback.1@)),
                },
                dial_options,
                answers.opened,
                answers.dialed,
            ),
            RequestResponseCommand::CancelRequest { request_id } => self.on_cancel_request(
                request_id,
            ),
            RequestResponseCommand::SendResponse { request_id, response } => self.on_decision(
                request_id,
                ActionView::SendResponse { request_id, response: response@ },
            ),
            RequestResponseCommand::RejectRequest { request_id } => self.on_decision(
                request_id,
                ActionView::RejectRequest { request_id },
            ),
        }
    }

    /// What an input does, whatever it is but the end of the connection to a connected peer.
    pub open spec fn on_input<S>(self, input: ProtocolInput<S>, answers: Answers) -> (
        Self,
        Seq<ActionView<S>>,
    ) {
        match input {
            ProtocolInput::Transport(event) => match event {
                TransportEvent::ConnectionEstablished { peer, .. } =>
                    self.on_connection_established(peer, answers.opened),
                TransportEvent::ConnectionClosed { .. } => (self, Seq::empty()),
                TransportEvent::SubstreamOpened { peer, fallback, direction, substream, .. } => {
                    let fallback = types::fallback_view(fallback);
                    match direction {
                        Direction::Inbound => self.on_inbound_substream(
                            peer,
                            fallback,
                            substream,
                            answers.request_id,
                        ),
                        Direction::Outbound(id) => self.on_outbound_substream(
                            peer,
                            id,
                            substream,
                            fallback,
                        ),
                    }
                },
                TransportEvent::SubstreamOpenFailure { substream, error } =>
                    self.on_substream_open_failure(substream, error),
                TransportEvent::DialFailure { peer, .. } => self.on_dial_failure(peer),
            },
            ProtocolInput::SubstreamEvent { peer, request_id, fallback, message } => {
                let (next, actions) = self.on_substream_event(
                    peer,
                    request_id,
                    types::fallback_view(fallback),
                    message_view(message),
                );
                (
                    ProtocolView {
                        pending_outbound_cancels: next.pending_outbound_cancels.remove(request_id),
                        ..next
                    },
                    actions,
                )
            },
            ProtocolInput::ResponseFinished { request_id, sent } => self.on_response_finished(
                request_id,
                sent,
            ),
            ProtocolInput::InboundRequest { peer, request_id, request } => self.on_inbound_request(
                peer,
                request_id,
                read_view(request),
            ),
            ProtocolInput::Command(command) => self.on_command(command, answers),
            ProtocolInput::Exhausted => (self, Seq::empty()),
        }
    }

    /// Whether an input leads from this state to `next` with `actions`.
    pub open spec fn handles<S>(
        self,
        input: ProtocolInput<S>,
        answers: Answers,
        next: Self,
        actions: Seq<ActionView<S>>,
    ) -> bool {
        match input {
            ProtocolInput::Transport(TransportEvent::ConnectionClosed { peer }) =>
                if self.peers.contains_key(peer) {
                    next == self.without_peer(peer) && closes(peer, self.peers[peer], actions)
                } else {
                    next == self && actions == Seq::<ActionView<S>>::empty()
                },
            _ => (next, actions) == self.on_input(input, answers),
        }
    }
}

} // verus!
