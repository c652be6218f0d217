//! Request-response protocol.
//!
//! Each request goes over a substream of its own, and the response comes back over the same one.

use self::config::RequestResponseConfig;
use self::handle::{
    DialOptions, RequestResponseCommand, RequestResponseError, RequestResponseEvent,
};
use self::state::{Action, Answers, PeerView, ProtocolInput, ProtocolView, RequestView};
use crate::collections;
use crate::collections::{AssocMap, AssocSet, MapKey};
use crate::error::{Error, NegotiationError, SubstreamError};
use crate::peer_id::PeerId;
use crate::protocol::{Direction, TransportEvent};
use crate::types;
use crate::types::{ProtocolName, RequestId, SubstreamId};
use vstd::prelude::*;

pub mod config;
pub mod flows;
pub mod handle;
pub mod laws;
pub mod service;
pub mod state;
pub mod task;

verus! {

/// Request context.
pub struct RequestContext {
    /// Peer ID.
    pub peer: PeerId,
    /// Request ID.
    pub request_id: RequestId,
    /// Request.
    pub request: Vec<u8>,
    /// Fallback request.
    pub fallback: Option<(ProtocolName, Vec<u8>)>,
}

/// A fallback protocol and the request for it, by their views.
pub open spec fn fallback_request_view(fallback: Option<(ProtocolName, Vec<u8>)>) -> Option<
    (Seq<char>, Seq<u8>),
> {
    match fallback {
        Some((name, request)) => Some((name@, request@)),
        None => None,
    }
}

impl View for RequestContext {
    type V = RequestView;

    open spec fn view(&self) -> RequestView {
        RequestView {
            peer: self.peer,
            request_id: self.request_id,
            request: self.request@,
            fallback: fallback_request_view(self.fallback),
        }
    }
}

impl RequestContext {
    /// Create new [`RequestContext`].
    pub fn new(
        peer: PeerId,
        request_id: RequestId,
        request: Vec<u8>,
        fallback: Option<(ProtocolName, Vec<u8>)>,
    ) -> (r: Self)
        ensures
            r == (RequestContext { peer, request_id, request, fallback }),
    {
        RequestContext { peer, request_id, request, fallback }
    }

    /// The form of the request that goes over a substream which was negotiated with
    /// `fallback_protocol`, or with the main protocol if there is none.
    pub fn negotiated_request(self, fallback_protocol: &Option<ProtocolName>) -> (r: Vec<u8>)
        ensures
            r@ == state::negotiated_request(self@, types::fallback_view(*fallback_protocol)),
    {
        match (fallback_protocol, self.fallback) {
            (Some(negotiated), Some((name, fallback_request))) => if negotiated.same(&name) {
                fallback_request
            } else {
                self.request
            },
            _ => self.request,
        }
    }
}

/// Requests, by their views.
pub open spec fn requests_view<K>(requests: Map<K, RequestContext>) -> Map<K, RequestView> {
    requests.map_values(|context: RequestContext| context@)
}

/// Peer context.
pub struct PeerContext {
    /// Active requests.
    active: AssocSet<RequestId>,
    /// Active inbound requests and their fallback names.
    active_inbound: AssocMap<RequestId, Option<ProtocolName>>,
}

impl View for PeerContext {
    type V = PeerView;

    closed spec fn view(&self) -> PeerView {
        PeerView {
            active: self.active@,
            active_inbound: names_view(self.active_inbound@),
        }
    }
}

/// Fallback names, by their views.
pub open spec fn names_view(names: Map<RequestId, Option<ProtocolName>>) -> Map<
    RequestId,
    Option<Seq<char>>,
> {
    names.map_values(|fallback: Option<ProtocolName>| types::fallback_view(fallback))
}

impl PeerContext {
    /// Create new [`PeerContext`].
    pub fn new() -> (r: Self)
        ensures
            r@ == PeerView::idle(),
    {
        let r = PeerContext { active: AssocSet::new(), active_inbound: AssocMap::new() };
        assert(r@ =~= PeerView::idle());
        r
    }
}

/// Peers, by their views.
pub open spec fn peers_view(peers: Map<PeerId, PeerContext>) -> Map<PeerId, PeerView> {
    peers.map_values(|context: PeerContext| context@)
}

impl MapKey for (PeerId, RequestId) {
    fn same(&self, other: &Self) -> (r: bool) {
        self.0.same(&other.0) && self.1.same(&other.1)
    }
}

/// Request-response protocol.
pub struct RequestResponseProtocol {
    /// Protocol.
    protocol: ProtocolName,
    /// Connected peers.
    peers: AssocMap<PeerId, PeerContext>,
    /// Pending outbound substreams, mapped from `SubstreamId` to `RequestId`.
    pending_outbound: AssocMap<SubstreamId, RequestContext>,
    /// Pending outbound responses: whether the decision of the user is still to come.
    pending_outbound_responses: AssocMap<RequestId, bool>,
    /// Requests that can be canceled.
    pending_outbound_cancels: AssocSet<RequestId>,
    /// Pending inbound requests.
    pending_inbound_requests: AssocSet<(PeerId, RequestId)>,
    /// Pending dials for outbound requests.
    pending_dials: AssocMap<PeerId, RequestContext>,
    /// Timeout for outbound requests, in nanoseconds.
    timeout: u64,
    /// Maximum concurrent inbound requests, if specified.
    max_concurrent_inbound_requests: Option<usize>,
}

impl View for RequestResponseProtocol {
    type V = ProtocolView;

    closed spec fn view(&self) -> ProtocolView {
        ProtocolView {
            peers: peers_view(self.peers@),
            pending_outbound: requests_view(self.pending_outbound@),
            pending_dials: requests_view(self.pending_dials@),
            pending_outbound_cancels: self.pending_outbound_cancels@,
            pending_inbound_requests: self.pending_inbound_requests@,
            pending_outbound_responses: self.pending_outbound_responses@,
            max_concurrent_inbound_requests: self.max_concurrent_inbound_requests,
        }
    }
}

impl RequestResponseProtocol {
    /// The protocol name.
    pub closed spec fn protocol(self) -> Seq<char> {
        self.protocol@
    }

    /// The timeout, in nanoseconds.
    pub closed spec fn timeout(self) -> u64 {
        self.timeout
    }

    /// Create new [`RequestResponseProtocol`].
    pub fn new(config: RequestResponseConfig) -> (r: Self)
        ensures
            r@ == (ProtocolView {
                peers: Map::empty(),
                pending_outbound: Map::empty(),
                pending_dials: Map::empty(),
                pending_outbound_cancels: Set::empty(),
                pending_inbound_requests: Set::empty(),
                pending_outbound_responses: Map::empty(),
                max_concurrent_inbound_requests: config.max_concurrent_inbound_requests,
            }),
            r.protocol() == config.protocol_name@,
            r.timeout() == config.timeout,
    {
        let r = RequestResponseProtocol {
            protocol: config.protocol_name,
            peers: AssocMap::new(),
            pending_outbound: AssocMap::new(),
            pending_outbound_responses: AssocMap::new(),
            pending_outbound_cancels: AssocSet::new(),
            pending_inbound_requests: AssocSet::new(),
            pending_dials: AssocMap::new(),
            timeout: config.timeout,
            max_concurrent_inbound_requests: config.max_concurrent_inbound_requests,
        };
        proof {
            assert(r@.peers =~= Map::empty());
            assert(r@.pending_outbound =~= Map::empty());
            assert(r@.pending_dials =~= Map::empty());
        }
        r
    }

    /// The protocol.
    pub fn protocol_name(&self) -> (r: &ProtocolName)
        ensures
            r@ == self.protocol(),
    {
        &self.protocol
    }

    /// Timeout for outbound requests and for responses, in nanoseconds.
    pub fn request_timeout(&self) -> (r: u64)
        ensures
            r == self.timeout(),
    {
        self.timeout
    }

    /// Whether there is a connection to `peer`.
    pub fn contains_peer(&self, peer: &PeerId) -> (r: bool)
        ensures
            r == self@.peers.contains_key(*peer),
    {
        self.peers.contains_key(peer)
    }

    /// Whether a request waits for a connection to `peer`.
    pub fn is_dialing(&self, peer: &PeerId) -> (r: bool)
        ensures
            r == self@.pending_dials.contains_key(*peer),
    {
        self.pending_dials.contains_key(peer)
    }

    /// Whether one more inbound request can be taken.
    pub fn has_capacity(&self) -> (r: bool)
        ensures
            r == self@.has_capacity(),
    {
        match self.max_concurrent_inbound_requests {
            Some(max) => {
                let reading: usize = self.pending_inbound_requests.len();
                let responding: usize = self.pending_outbound_responses.len();
                reading < max && responding < max - reading
            },
            None => true,
        }
    }

    /// Takes the context of a connected peer out.
    fn take_peer(&mut self, peer: &PeerId) -> (r: Option<PeerContext>)
        ensures
            final(self)@ == (ProtocolView { peers: old(self)@.peers.remove(*peer), ..old(self)@ }),
            final(self).protocol() == old(self).protocol(),
            final(self).timeout() == old(self).timeout(),
            match r {
                Some(context) => old(self)@.peers.contains_key(*peer) && context@
                    == old(self)@.peers[*peer],
                None => !old(self)@.peers.contains_key(*peer),
            },
    {
        proof {
            collections::lemma_map_values_remove(
                self.peers@,
                |context: PeerContext| context@,
                *peer,
            );
        }
        self.peers.remove(peer)
    }

    /// Puts the context of a connected peer.
    fn put_peer(&mut self, peer: PeerId, context: PeerContext)
        ensures
            final(self)@ == old(self)@.with_peer(peer, context@),
            final(self).protocol() == old(self).protocol(),
            final(self).timeout() == old(self).timeout(),
    {
        proof {
            collections::lemma_map_values_insert(
                self.peers@,
                |context: PeerContext| context@,
                peer,
                context,
            );
        }
        let _ = self.peers.insert(peer, context);
    }

    /// Takes the request out that waits for an outbound substream.
    fn take_outbound(&mut self, substream: &SubstreamId) -> (r: Option<RequestContext>)
        ensures
            final(self)@ == (ProtocolView {
                pending_outbound: old(self)@.pending_outbound.remove(*substream),
                ..old(self)@
            }),
            final(self).protocol() == old(self).protocol(),
            final(self).timeout() == old(self).timeout(),
            match r {
                Some(context) => old(self)@.pending_outbound.contains_key(*substream) && context@
                    == old(self)@.pending_outbound[*substream],
                None => !old(self)@.pending_outbound.contains_key(*substream),
            },
    {
        proof {
            collections::lemma_map_values_remove(
                self.pending_outbound@,
                |context: RequestContext| context@,
                *substream,
            );
        }
        self.pending_outbound.remove(substream)
    }

    /// Lets a request wait for an outbound substream.
    fn put_outbound(&mut self, substream: SubstreamId, context: RequestContext)
        ensures
            final(self)@ == (ProtocolView {
                pending_outbound: old(self)@.pending_outbound.insert(substream, context@),
                ..old(self)@
            }),
            final(self).protocol() == old(self).protocol(),
            final(self).timeout() == old(self).timeout(),
    {
        proof {
            collections::lemma_map_values_insert(
                self.pending_outbound@,
                |context: RequestContext| context@,
                substream,
                context,
            );
        }
        let _ = self.pending_outbound.insert(substream, context);
    }

    /// Takes the request out that waits for a connection to `peer`.
    fn take_dial(&mut self, peer: &PeerId) -> (r: Option<RequestContext>)
        ensures
            final(self)@ == (ProtocolView {
                pending_dials: old(self)@.pending_dials.remove(*peer),
                ..old(self)@
            }),
            final(self).protocol() == old(self).protocol(),
            final(self).timeout() == old(self).timeout(),
            match r {
                Some(context) => old(self)@.pending_dials.contains_key(*peer) && context@
                    == old(self)@.pending_dials[*peer],
                None => !old(self)@.pending_dials.contains_key(*peer),
            },
    {
        proof {
            collections::lemma_map_values_remove(
                self.pending_dials@,
                |context: RequestContext| context@,
                *peer,
            );
        }
        self.pending_dials.remove(peer)
    }

    /// A request is no longer active, if its peer is connected.
    fn end_request(&mut self, peer: PeerId, request_id: &RequestId)
        ensures
            final(self)@ == old(self)@.without_request(peer, *request_id),
            final(self).protocol() == old(self).protocol(),
            final(self).timeout() == old(self).timeout(),
    {
        let ghost before = self@;
        match self.take_peer(&peer) {
            Some(mut context) => {
                let _ = context.active.remove(request_id);
                self.put_peer(peer, context);
                assert(self@ =~= before.without_request(peer, *request_id));
            },
            None => {
                assert(self@ =~= before);
            },
        }
    }

    /// Report request send failure to user.
    pub fn report_request_failure<S>(
        peer: PeerId,
        request_id: RequestId,
        error: RequestResponseError,
    ) -> (r: Vec<Action<S>>)
        ensures
            state::action_views(r@) == seq![state::request_failed::<S>(peer, request_id, error)],
    {
        let mut actions: Vec<Action<S>> = Vec::new();
        actions.push(
            Action::Report(RequestResponseEvent::RequestFailed { peer, request_id, error }),
        );
        assert(state::action_views(actions@) =~= seq![
            state::request_failed::<S>(peer, request_id, error),
        ]);
        actions
    }

    /// Connection established to remote peer.
    ///
    /// If a request waits for the connection, `opened` is the substream that the transport has
    /// started to open for it. If it could not, the connection is gone again and the request fails.
    pub fn on_connection_established<S>(&mut self, peer: PeerId, opened: Option<SubstreamId>) -> (r:
        Result<Vec<Action<S>>, Error>)
        ensures
            match r {
                Ok(actions) => !old(self)@.peers.contains_key(peer) && (
                    final(self)@,
                    state::action_views(actions@),
                ) == old(self)@.on_connection_established::<S>(peer, opened),
                Err(error) => old(self)@.peers.contains_key(peer) && error
                    == Error::PeerAlreadyExists(peer) && final(self)@ == old(self)@,
            },
            final(self).protocol() == old(self).protocol(),
            final(self).timeout() == old(self).timeout(),
    {
        let ghost before = self@;
        if self.peers.contains_key(&peer) {
            return Err(Error::PeerAlreadyExists(peer));
        }
        let ghost expected = before.on_connection_established::<S>(peer, opened);
        match self.take_dial(&peer) {
            None => {
                self.put_peer(peer, PeerContext::new());
                assert(self@ =~= expected.0);
                let actions: Vec<Action<S>> = Vec::new();
                assert(state::action_views(actions@) =~= expected.1);
                Ok(actions)
            },
            Some(context) => match opened {
                Some(substream) => {
                    let mut active: AssocSet<RequestId> = AssocSet::new();
                    let _ = active.insert(context.request_id);
                    let peer_context = PeerContext { active, active_inbound: AssocMap::new() };
                    assert(peer_context@ =~= PeerView::idle().with_active(context.request_id));
                    self.put_peer(peer, peer_context);
                    self.put_outbound(
                        substream,
                        RequestContext::new(
                            peer,
                            context.request_id,
                            context.request,
                            context.fallback,
                        ),
                    );
                    assert(self@ =~= expected.0);
                    let actions: Vec<Action<S>> = Vec::new();
                    assert(state::action_views(actions@) =~= expected.1);
                    Ok(actions)
                },
                None => {
                    assert(self@ =~= expected.0);
                    Ok(
                        Self::report_request_failure(
                            peer,
                            context.request_id,
                            RequestResponseError::Rejected,
                        ),
                    )
                },
            },
        }
    }

    /// Local node opened a substream to remote node.
    pub fn on_outbound_substream<S>(
        &mut self,
        peer: PeerId,
        substream_id: SubstreamId,
        substream: S,
        fallback_protocol: Option<ProtocolName>,
    ) -> (r: Result<Vec<Action<S>>, Error>)
        ensures
            match r {
                Ok(actions) => old(self)@.pending_outbound.contains_key(substream_id) && (
                    final(self)@,
                    state::action_views(actions@),
                ) == old(self)@.on_outbound_substream(
                    peer,
                    substream_id,
                    substream,
                    types::fallback_view(fallback_protocol),
                ),
                Err(error) => !old(self)@.pending_outbound.contains_key(substream_id) && error
                    == Error::InvalidState && final(self)@ == old(self)@,
            },
            final(self).protocol() == old(self).protocol(),
            final(self).timeout() == old(self).timeout(),
    {
        let ghost before = self@;
        let ghost expected = before.on_outbound_substream(
            peer,
            substream_id,
            substream,
            types::fallback_view(fallback_protocol),
        );
        match self.take_outbound(&substream_id) {
            None => {
                assert(self@ =~= before);
                Err(Error::InvalidState)
            },
            Some(context) => {
                let request_id = context.request_id;
                let request = context.negotiated_request(&fallback_protocol);
                let _ = self.pending_outbound_cancels.insert(request_id);
                assert(self@ =~= expected.0);
                let mut actions: Vec<Action<S>> = Vec::new();
                actions.push(
                    Action::SendRequest {
                        peer,
                        request_id,
                        fallback: fallback_protocol,
                        request,
                        substream,
                    },
                );
                assert(state::action_views(actions@) =~= expected.1);
                Ok(actions)
            },
        }
    }

    /// Handle pending inbound request: it has been read, or could not be read.
    pub fn on_inbound_request<S>(
        &mut self,
        peer: PeerId,
        request_id: RequestId,
        request: Result<Vec<u8>, Error>,
    ) -> (r: (Result<(), Error>, Vec<Action<S>>))
        ensures
            (final(self)@, state::action_views(r.1@)) == old(self)@.on_inbound_request::<S>(
                peer,
                request_id,
                state::read_view(request),
            ),
            r.0 == (if !old(self)@.peers.contains_key(peer) {
                Err::<(), Error>(Error::PeerDoesntExist(peer))
            } else if !old(self)@.peers[peer].active_inbound.contains_key(request_id)
                || !old(self)@.pending_inbound_requests.contains((peer, request_id)) {
                Err(Error::InvalidState)
            } else if request is Err {
                Err(Error::InvalidData)
            } else {
                Ok(())
            }),
            final(self).protocol() == old(self).protocol(),
            final(self).timeout() == old(self).timeout(),
    {
        let ghost before = self@;
        let ghost expected = before.on_inbound_request::<S>(
            peer,
            request_id,
            state::read_view(request),
        );
        let mut actions: Vec<Action<S>> = Vec::new();
        let mut context = match self.take_peer(&peer) {
            None => {
                assert(self@ =~= before);
                assert(state::action_views(actions@) =~= expected.1);
                return (Err(Error::PeerDoesntExist(peer)), actions);
            },
            Some(context) => context,
        };
        proof {
            collections::lemma_map_values_remove(
                context.active_inbound@,
                |fallback: Option<ProtocolName>| types::fallback_view(fallback),
                request_id,
            );
        }
        let fallback = match context.active_inbound.remove(&request_id) {
            None => {
                assert(context@ =~= before.peers[peer]);
                self.put_peer(peer, context);
                assert(self@ =~= before);
                assert(state::action_views(actions@) =~= expected.1);
                return (Err(Error::InvalidState), actions);
            },
            Some(fallback) => fallback,
        };
        self.put_peer(peer, context);
        if !self.pending_inbound_requests.remove(&(peer, request_id)) {
            assert(self@ =~= expected.0);
            assert(state::action_views(actions@) =~= expected.1);
            return (Err(Error::InvalidState), actions);
        }
        match request {
            Err(_) => {
                assert(self@ =~= expected.0);
                actions.push(Action::DiscardRequest { peer, request_id });
                assert(state::action_views(actions@) =~= expected.1);
                (Err(Error::InvalidData), actions)
            },
            Ok(request) => {
                let _ = self.pending_outbound_responses.insert(request_id, true);
                assert(self@ =~= expected.0);
                actions.push(Action::AwaitResponse { peer, request_id });
                actions.push(
                    Action::Report(
                        RequestResponseEvent::RequestReceived {
                            peer,
                            fallback,
                            request_id,
                            request,
                        },
                    ),
                );
                assert(state::action_views(actions@) =~= expected.1);
                (Ok(()), actions)
            },
        }
    }

    /// Remote opened a substream to local node.
    ///
    /// `request_id` is the ID that the request gets.
    pub fn on_inbound_substream<S>(
        &mut self,
        peer: PeerId,
        fallback: Option<ProtocolName>,
        substream: S,
        request_id: RequestId,
    ) -> (r: Result<Vec<Action<S>>, Error>)
        ensures
            match r {
                Ok(actions) => (!old(self)@.has_capacity() || old(self)@.peers.contains_key(peer))
                    && (final(self)@, state::action_views(actions@))
                    == old(self)@.on_inbound_substream(
                    peer,
                    types::fallback_view(fallback),
                    substream,
                    request_id,
                ),
                Err(error) => old(self)@.has_capacity() && !old(self)@.peers.contains_key(peer)
                    && error == Error::PeerDoesntExist(peer) && final(self)@ == old(self)@,
            },
            final(self).protocol() == old(self).protocol(),
            final(self).timeout() == old(self).timeout(),
    {
        let ghost before = self@;
        let ghost expected = before.on_inbound_substream(
            peer,
            types::fallback_view(fallback),
            substream,
            request_id,
        );
        let mut actions: Vec<Action<S>> = Vec::new();
        if !self.has_capacity() {
            actions.push(Action::CloseSubstream { substream });
            assert(state::action_views(actions@) =~= expected.1);
            return Ok(actions);
        }
        let mut context = match self.take_peer(&peer) {
            None => {
                assert(self@ =~= before);
                return Err(Error::PeerDoesntExist(peer));
            },
            Some(context) => context,
        };
        proof {
            collections::lemma_map_values_insert(
                context.active_inbound@,
                |fallback: Option<ProtocolName>| types::fallback_view(fallback),
                request_id,
                fallback,
            );
        }
        let _ = context.active_inbound.insert(request_id, fallback);
        self.put_peer(peer, context);
        let _ = self.pending_inbound_requests.insert((peer, request_id));
        assert(self@ =~= expected.0);
        actions.push(Action::ReadRequest { peer, request_id, substream });
        assert(state::action_views(actions@) =~= expected.1);
        Ok(actions)
    }

    /// Failed to dial `peer`.
    pub fn on_dial_failure<S>(&mut self, peer: PeerId) -> (r: Vec<Action<S>>)
        ensures
            (final(self)@, state::action_views(r@)) == old(self)@.on_dial_failure::<S>(peer),
            final(self).protocol() == old(self).protocol(),
            final(self).timeout() == old(self).timeout(),
    {
        let ghost before = self@;
        let ghost expected = before.on_dial_failure::<S>(peer);
        match self.take_dial(&peer) {
            Some(context) => {
                self.end_request(peer, &context.request_id);
                assert(self@ =~= expected.0);
                Self::report_request_failure(
                    peer,
                    context.request_id,
                    RequestResponseError::Rejected,
                )
            },
            None => {
                assert(self@ =~= before);
                let actions: Vec<Action<S>> = Vec::new();
                assert(state::action_views(actions@) =~= expected.1);
                actions
            },
        }
    }

    /// Failed to open substream to remote peer.
    pub fn on_substream_open_failure<S>(&mut self, substream: SubstreamId, error: Error) -> (r:
        Result<Vec<Action<S>>, Error>)
        ensures
            match r {
                Ok(actions) => old(self)@.pending_outbound.contains_key(substream) && (
                    final(self)@,
                    state::action_views(actions@),
                ) == old(self)@.on_substream_open_failure::<S>(substream, error),
                Err(e) => !old(self)@.pending_outbound.contains_key(substream) && e
                    == Error::InvalidState && final(self)@ == old(self)@,
            },
            final(self).protocol() == old(self).protocol(),
            final(self).timeout() == old(self).timeout(),
    {
        let ghost before = self@;
        let ghost expected = before.on_substream_open_failure::<S>(substream, error);
        match self.take_outbound(&substream) {
            None => {
                assert(self@ =~= before);
                Err(Error::InvalidState)
            },
            Some(context) => {
                self.end_request(context.peer, &context.request_id);
                assert(self@ =~= expected.0);
                let reason = match error {
                    Error::SubstreamError(
                        SubstreamError::NegotiationError(NegotiationError::MultistreamSelectFailed),
                    ) => RequestResponseError::UnsupportedProtocol,
                    _ => RequestResponseError::Rejected,
                };
                Ok(Self::report_request_failure(context.peer, context.request_id, reason))
            },
        }
    }

    /// Send request to remote peer.
    ///
    /// If the peer is connected, `opened` is the substream that the transport has started to open.
    /// If it is not and is to be dialed, `dialed` says whether the transport has started to.
    pub fn on_send_request<S>(
        &mut self,
        peer: PeerId,
        request_id: RequestId,
        request: Vec<u8>,
        dial_options: DialOptions,
        fallback: Option<(ProtocolName, Vec<u8>)>,
        opened: Option<SubstreamId>,
        dialed: bool,
    ) -> (r: Vec<Action<S>>)
        ensures
            (final(self)@, state::action_views(r@)) == old(self)@.on_send_request::<S>(
                RequestView {
                    peer,
                    request_id,
                    request: request@,
                    fallback: fallback_request_view(fallback),
                },
                dial_options,
                opened,
                dialed,
            ),
            final(self).protocol() == old(self).protocol(),
            final(self).timeout() == old(self).timeout(),
    {
        let ghost before = self@;
        let ghost view = RequestView {
            peer,
            request_id,
            request: request@,
            fallback: fallback_request_view(fallback),
        };
        let ghost expected = before.on_send_request::<S>(view, dial_options, opened, dialed);
        let actions: Vec<Action<S>> = Vec::new();
        let mut context = match self.take_peer(&peer) {
            None => {
                assert(self@ =~= before);
                match dial_options {
                    DialOptions::Reject => {
                        return Self::report_request_failure(
                            peer,
                            request_id,
                            RequestResponseError::NotConnected,
                        );
                    },
                    DialOptions::Dial => {
                        if dialed {
                            let context = RequestContext::new(peer, request_id, request, fallback);
                            proof {
                                collections::lemma_map_values_insert(
                                    self.pending_dials@,
                                    |context: RequestContext| context@,
                                    peer,
                                    context,
                                );
                            }
                            let _ = self.pending_dials.insert(peer, context);
                            assert(self@ =~= expected.0);
                            assert(state::action_views(actions@) =~= expected.1);
                            return actions;
                        } else {
                            return Self::report_request_failure(
                                peer,
                                request_id,
                                RequestResponseError::Rejected,
                            );
                        }
                    },
                }
            },
            Some(context) => context,
        };
        match opened {
            Some(substream) => {
                let _ = context.active.insert(request_id);
                self.put_peer(peer, context);
                self.put_outbound(
                    substream,
                    RequestContext::new(peer, request_id, request, fallback),
                );
                assert(self@ =~= expected.0);
                assert(state::action_views(actions@) =~= expected.1);
                actions
            },
            None => {
                self.put_peer(peer, context);
                assert(self@ =~= expected.0);
                Self::report_request_failure(peer, request_id, RequestResponseError::Rejected)
            },
        }
    }

    /// Handle substream event: a request has its response, or has failed.
    pub fn on_substream_event<S>(
        &mut self,
        peer: PeerId,
        request_id: RequestId,
        fallback: Option<ProtocolName>,
        message: Result<Vec<u8>, RequestResponseError>,
    ) -> (r: Result<Vec<Action<S>>, Error>)
        ensures
            match r {
                Ok(actions) => {
                    &&& old(self)@.peers.contains_key(peer)
                    &&& old(self)@.peers[peer].active.contains(request_id)
                    &&& (final(self)@, state::action_views(actions@))
                        == old(self)@.on_substream_event::<S>(
                        peer,
                        request_id,
                        types::fallback_view(fallback),
                        state::message_view(message),
                    )
                },
                Err(error) => {
                    &&& error == (if old(self)@.peers.contains_key(peer) {
                        Error::InvalidState
                    } else {
                        Error::PeerDoesntExist(peer)
                    })
                    &&& old(self)@.peers.contains_key(peer)
                        ==> !old(self)@.peers[peer].active.contains(request_id)
                    &&& final(self)@ == old(self)@
                },
            },
            final(self).protocol() == old(self).protocol(),
            final(self).timeout() == old(self).timeout(),
    {
        let ghost before = self@;
        let ghost expected = before.on_substream_event::<S>(
            peer,
            request_id,
            types::fallback_view(fallback),
            state::message_view(message),
        );
        let mut context = match self.take_peer(&peer) {
            None => {
                assert(self@ =~= before);
                return Err(Error::PeerDoesntExist(peer));
            },
            Some(context) => context,
        };
        let removed = context.active.remove(&request_id);
        assert(!removed ==> context@ =~= before.peers[peer]);
        self.put_peer(peer, context);
        if !removed {
            assert(self@ =~= before);
            return Err(Error::InvalidState);
        }
        assert(self@ =~= expected.0);
        let mut actions: Vec<Action<S>> = Vec::new();
        match message {
            Ok(response) => {
                actions.push(
                    Action::Report(
                        RequestResponseEvent::ResponseReceived {
                            peer,
                            request_id,
                            fallback,
                            response,
                        },
                    ),
                );
            },
            Err(RequestResponseError::Canceled) => {},
            Err(error) => {
                actions.push(
                    Action::Report(RequestResponseEvent::RequestFailed { peer, request_id, error }),
                );
            },
        }
        assert(state::action_views(actions@) =~= expected.1);
        Ok(actions)
    }

    /// Cancel outbound request.
    pub fn on_cancel_request<S>(&mut self, request_id: RequestId) -> (r: Vec<Action<S>>)
        ensures
            (final(self)@, state::action_views(r@)) == old(self)@.on_cancel_request::<S>(
                request_id,
            ),
            final(self).protocol() == old(self).protocol(),
            final(self).timeout() == old(self).timeout(),
    {
        let ghost before = self@;
        let ghost expected = before.on_cancel_request::<S>(request_id);
        let mut actions: Vec<Action<S>> = Vec::new();
        if self.pending_outbound_cancels.remove(&request_id) {
            actions.push(Action::CancelRequest { request_id });
        }
        assert(self@ =~= expected.0);
        assert(state::action_views(actions@) =~= expected.1);
        actions
    }

    /// Connection closed to remote peer.
    ///
    /// The requests that are under way have failed, and the requests of the peer that are being
    /// read are dropped.
    pub fn on_connection_closed<S>(&mut self, peer: PeerId) -> (r: Vec<Action<S>>)
        ensures
            old(self)@.peers.contains_key(peer) ==> {
                &&& final(self)@ == old(self)@.without_peer(peer)
                &&& state::closes(peer, old(self)@.peers[peer], state::action_views(r@))
            },
            !old(self)@.peers.contains_key(peer) ==> {
                &&& final(self)@ == old(self)@
                &&& r@.len() == 0
            },
            final(self).protocol() == old(self).protocol(),
            final(self).timeout() == old(self).timeout(),
    {
        let ghost before = self@;
        let mut actions: Vec<Action<S>> = Vec::new();
        let context = match self.take_peer(&peer) {
            None => {
                assert(self@ =~= before);
                return actions;
            },
            Some(context) => context,
        };
        let ghost active = context.active.order();
        let ghost inbound = context.active_inbound.order();
        let ghost removed = self@;
        let count: usize = context.active.len();
        let mut i: usize = 0;
        while i < count
            invariant
                i <= count,
                count == active.len(),
                active == context.active.order(),
                state::action_views(actions@) =~= state::closed_actions::<S>(
                    peer,
                    active.take(i as int),
                    Seq::empty(),
                ),
            decreases count - i,
        {
            let request_id = *context.active.at(i);
            let action = Action::Report(
                RequestResponseEvent::RequestFailed {
                    peer,
                    request_id,
                    error: RequestResponseError::Rejected,
                },
            );
            proof {
                state::lemma_action_views_push(actions@, action);
                state::lemma_closed_active::<S>(peer, active.take(i as int), request_id);
                assert(active.take(i + 1) =~= active.take(i as int).push(request_id));
            }
            actions.push(action);
            i += 1;
        }
        assert(active.take(count as int) =~= active);
        let count: usize = context.active_inbound.len();
        let mut i: usize = 0;
        while i < count
            invariant
                i <= count,
                count == inbound.len(),
                inbound == context.active_inbound.order(),
                state::action_views(actions@) =~= state::closed_actions::<S>(
                    peer,
                    active,
                    inbound.take(i as int),
                ),
                self@.pending_inbound_requests =~= removed.pending_inbound_requests.filter(
                    |key: (PeerId, RequestId)|
                        !(key.0 == peer && inbound.take(i as int).contains(key.1)),
                ),
                self@ == (ProtocolView {
                    pending_inbound_requests: self@.pending_inbound_requests,
                    ..removed
                }),
                self.protocol() == old(self).protocol(),
                self.timeout() == old(self).timeout(),
            decreases count - i,
        {
            let request_id = *context.active_inbound.key_at(i);
            let _ = self.pending_inbound_requests.remove(&(peer, request_id));
            let action = Action::DiscardRequest { peer, request_id };
            proof {
                state::lemma_action_views_push(actions@, action);
                state::lemma_closed_inbound::<S>(peer, active, inbound.take(i as int), request_id);
                let now = inbound.take(i + 1);
                assert(now =~= inbound.take(i as int).push(request_id));
                assert(now[i as int] == request_id);
                assert forall|id: RequestId|
                    now.contains(id) <==> inbound.take(i as int).contains(id) || id
                        == request_id by {
                    if inbound.take(i as int).contains(id) {
                        let j = choose|j: int|
                            0 <= j < i && inbound.take(i as int)[j] == id;
                        assert(now[j] == id);
                    }
                }
            }
            actions.push(action);
            i += 1;
        }
        proof {
            assert(inbound.take(count as int) =~= inbound);
            let names = context@.active_inbound;
            assert(names.dom() =~= context.active_inbound@.dom());
            assert(forall|id: RequestId| inbound.contains(id) <==> inbound.to_set().contains(id));
            assert(self@.pending_inbound_requests =~= before.without_peer(
                peer,
            ).pending_inbound_requests);
            assert(self@ =~= before.without_peer(peer));
            assert(state::lists(active, context@.active));
            assert(state::lists(inbound, names.dom()));
        }
        actions
    }

    /// The user has a response for an inbound request.
    pub fn on_send_response<S>(&mut self, request_id: RequestId, response: Vec<u8>) -> (r: Vec<
        Action<S>,
    >)
        ensures
            (final(self)@, state::action_views(r@)) == old(self)@.on_decision(
                request_id,
                state::ActionView::<S>::SendResponse { request_id, response: response@ },
            ),
            final(self).protocol() == old(self).protocol(),
            final(self).timeout() == old(self).timeout(),
    {
        let ghost expected = self@.on_decision(
            request_id,
            state::ActionView::<S>::SendResponse { request_id, response: response@ },
        );
        let mut actions: Vec<Action<S>> = Vec::new();
        if self.awaits_response(&request_id) {
            let _ = self.pending_outbound_responses.insert(request_id, false);
            actions.push(Action::SendResponse { request_id, response });
        }
        assert(self@ =~= expected.0);
        assert(state::action_views(actions@) =~= expected.1);
        actions
    }

    /// The user rejects an inbound request.
    pub fn on_reject_request<S>(&mut self, request_id: RequestId) -> (r: Vec<Action<S>>)
        ensures
            (final(self)@, state::action_views(r@)) == old(self)@.on_decision(
                request_id,
                state::ActionView::<S>::RejectRequest { request_id },
            ),
            final(self).protocol() == old(self).protocol(),
            final(self).timeout() == old(self).timeout(),
    {
        let ghost expected = self@.on_decision(
            request_id,
            state::ActionView::<S>::RejectRequest { request_id },
        );
        let mut actions: Vec<Action<S>> = Vec::new();
        if self.awaits_response(&request_id) {
            let _ = self.pending_outbound_responses.insert(request_id, false);
            actions.push(Action::RejectRequest { request_id });
        }
        assert(self@ =~= expected.0);
        assert(state::action_views(actions@) =~= expected.1);
        actions
    }

    /// The response to an inbound request has been sent or is given up, or the request has been
    /// rejected.
    pub fn on_response_finished<S>(&mut self, request_id: RequestId, sent: bool) -> (r: Vec<
        Action<S>,
    >)
        ensures
            (final(self)@, state::action_views(r@)) == old(self)@.on_response_finished::<S>(
                request_id,
                sent,
            ),
            final(self).protocol() == old(self).protocol(),
            final(self).timeout() == old(self).timeout(),
    {
        let ghost expected = self@.on_response_finished::<S>(request_id, sent);
        let mut actions: Vec<Action<S>> = Vec::new();
        let pending = self.pending_outbound_responses.remove(&request_id);
        if sent && pending.is_some() {
            actions.push(Action::ResponseSent { request_id });
        }
        assert(self@ =~= expected.0);
        assert(state::action_views(actions@) =~= expected.1);
        actions
    }

    /// Whether an inbound request waits for the decision of the user.
    pub fn awaits_response(&self, request_id: &RequestId) -> (r: bool)
        ensures
            r == self@.awaits_response(*request_id),
    {
        match self.pending_outbound_responses.get(request_id) {
            Some(waiting) => *waiting,
            None => false,
        }
    }

    /// Handle the next input.
    ///
    /// What cannot be handled is ignored, and so is [`ProtocolInput::Exhausted`], after which there
    /// is nothing to wait for.
    pub fn next_event<S>(&mut self, input: ProtocolInput<S>, answers: Answers) -> (r: Vec<
        Action<S>,
    >)
        ensures
            old(self)@.handles(input, answers, final(self)@, state::action_views(r@)),
            final(self).protocol() == old(self).protocol(),
            final(self).timeout() == old(self).timeout(),
    {
        let none: Vec<Action<S>> = Vec::new();
        assert(state::action_views(none@) =~= Seq::empty());
        match input {
            ProtocolInput::Transport(event) => match event {
                TransportEvent::ConnectionEstablished { peer, .. } => {
                    match self.on_connection_established(peer, answers.opened) {
                        Ok(actions) => actions,
                        Err(_) => none,
                    }
                },
                TransportEvent::ConnectionClosed { peer } => {
                    let actions = self.on_connection_closed(peer);
                    assert(actions@.len() == 0 ==> state::action_views(actions@) =~= Seq::empty());
                    actions
                },
                TransportEvent::SubstreamOpened { peer, fallback, direction, substream, .. } => {
                    let handled = match direction {
                        Direction::Inbound => self.on_inbound_substream(
                            peer,
                            fallback,
                            substream,
                            answers.request_id,
                        ),
                        Direction::Outbound(id) => self.on_outbound_substream(
                            peer,
                            id,
                            substream,
                            fallback,
                        ),
                    };
                    match handled {
                        Ok(actions) => actions,
                        Err(_) => none,
                    }
                },
                TransportEvent::SubstreamOpenFailure { substream, error } => {
                    match self.on_substream_open_failure(substream, error) {
                        Ok(actions) => actions,
                        Err(_) => none,
                    }
                },
                TransportEvent::DialFailure { peer, .. } => self.on_dial_failure(peer),
            },
            ProtocolInput::SubstreamEvent { peer, request_id, fallback, message } => {
                let actions = match self.on_substream_event(peer, request_id, fallback, message) {
                    Ok(actions) => actions,
                    Err(_) => none,
                };
                let _ = self.pending_outbound_cancels.remove(&request_id);
                assert(self@ =~= old(self)@.on_input(input, answers).0);
                actions
            },
            ProtocolInput::ResponseFinished { request_id, sent } => self.on_response_finished(
                request_id,
                sent,
            ),
            ProtocolInput::InboundRequest { peer, request_id, request } => {
                let (_, actions) = self.on_inbound_request(peer, request_id, request);
                actions
            },
            ProtocolInput::Command(command) => match command {
                RequestResponseCommand::SendRequest { peer, request_id, request, dial_options } =>
                    self.on_send_request(
                        peer,
                        request_id,
                        request,
                        dial_options,
                        None,
                        answers.opened,
                        answers.dialed,
                    ),
                RequestResponseCommand::SendRequestWithFallback {
                    peer,
                    request_id,
                    request,
                    fallback,
                    dial_options,
                } => self.on_send_request(
                    peer,
                    request_id,
                    request,
                    dial_options,
                    Some(fallback),
                    answers.opened,
                    answers.dialed,
                ),
                RequestResponseCommand::CancelRequest { request_id } => self.on_cancel_request(
                    request_id,
                ),
                RequestResponseCommand::SendResponse { request_id, response } =>
                    self.on_send_response(request_id, response),
                RequestResponseCommand::RejectRequest { request_id } => self.on_reject_request(
                    request_id,
                ),
            },
            ProtocolInput::Exhausted => none,
        }
    }
}

} // verus!
