//! What holds of every request.

use super::handle::{DialOptions, EventView, RequestResponseCommand, RequestResponseError};
use super::state;
use super::state::{ActionView, Answers, PeerView, ProtocolInput, ProtocolView, RequestView};
use crate::error::Error;
use crate::peer_id::PeerId;
use crate::protocol::TransportEvent;
use crate::types::{RequestId, SubstreamId};
use vstd::prelude::*;

verus! {

/// Whether an action reports the end of a request to `peer`: its response, or its failure.
pub open spec fn ends_request<S>(
    action: ActionView<S>,
    peer: PeerId,
    request_id: RequestId,
) -> bool {
    match action {
        ActionView::Report(EventView::ResponseReceived { peer: p, request_id: id, .. }) => p == peer
            && id == request_id,
        ActionView::Report(EventView::RequestFailed { peer: p, request_id: id, .. }) => p == peer
            && id == request_id,
        _ => false,
    }
}

/// Whether some action reports the end of a request.
pub open spec fn reports_end<S>(
    actions: Seq<ActionView<S>>,
    peer: PeerId,
    request_id: RequestId,
) -> bool {
    exists|i: int| 0 <= i < actions.len() && ends_request(#[trigger] actions[i], peer, request_id)
}

/// Whether a request is under way.
pub open spec fn is_active(view: ProtocolView, peer: PeerId, request_id: RequestId) -> bool {
    view.peers.contains_key(peer) && view.peers[peer].active.contains(request_id)
}

/// Whether an input says that the local node has canceled a request.
pub open spec fn is_cancellation<S>(
    input: ProtocolInput<S>,
    peer: PeerId,
    request_id: RequestId,
) -> bool {
    input matches ProtocolInput::SubstreamEvent { peer: p, request_id: id, message, .. } && p
        == peer && id == request_id && message == Err::<Vec<u8>, _>(RequestResponseError::Canceled)
}

/// No more inbound requests are handled at a time than the limit says, whatever happens.
pub proof fn law_inbound_requests_bounded<S>(
    before: ProtocolView,
    input: ProtocolInput<S>,
    answers: Answers,
    after: ProtocolView,
    actions: Seq<ActionView<S>>,
)
    requires
        before.handles(input, answers, after, actions),
        before.pending_inbound_requests.finite(),
        before.pending_outbound_responses.dom().finite(),
        before.max_concurrent_inbound_requests matches Some(max) && before.inbound_requests()
            <= max,
    ensures
        after.pending_inbound_requests.finite(),
        after.pending_outbound_responses.dom().finite(),
        after.max_concurrent_inbound_requests == before.max_concurrent_inbound_requests,
        after.inbound_requests() <= after.max_concurrent_inbound_requests->Some_0,
{
    if let ProtocolInput::Transport(TransportEvent::ConnectionClosed { peer }) = input {
        if before.peers.contains_key(peer) {
            let inbound = before.peers[peer].active_inbound;
            let kept = |key: (PeerId, RequestId)|
                !(key.0 == peer && inbound.contains_key(key.1));
            before.pending_inbound_requests.lemma_len_filter(kept);
            assert(after.pending_inbound_requests =~= before.pending_inbound_requests.filter(kept));
        }
    } else {
        let reading = before.pending_inbound_requests;
        let responding = before.pending_outbound_responses;
        match input {
            ProtocolInput::InboundRequest { peer, request_id, .. } => {
                assert(responding.insert(request_id, true).dom() =~= responding.dom().insert(
                    request_id,
                ));
                assert(reading.contains((peer, request_id)) ==> reading.remove(
                    (peer, request_id),
                ).len() == reading.len() - 1);
            },
            ProtocolInput::ResponseFinished { request_id, .. } => {
                assert(responding.remove(request_id).dom() =~= responding.dom().remove(
                    request_id,
                ));
            },
            ProtocolInput::Command(RequestResponseCommand::SendResponse { request_id, .. }) => {
                assert(before.awaits_response(request_id) ==> responding.insert(
                    request_id,
                    false,
                ).dom() =~= responding.dom());
            },
            ProtocolInput::Command(RequestResponseCommand::RejectRequest { request_id }) => {
                assert(before.awaits_response(request_id) ==> responding.insert(
                    request_id,
                    false,
                ).dom() =~= responding.dom());
            },
            _ => {},
        }
    }
}

/// Whether each request that is being read is registered with a connected peer.
pub open spec fn inbound_requests_registered(view: ProtocolView) -> bool {
    forall|key: (PeerId, RequestId)| #[trigger]
        view.pending_inbound_requests.contains(key) ==> view.peers.contains_key(key.0)
            && view.peers[key.0].active_inbound.contains_key(key.1)
}

/// Each request that is being read is registered with a connected peer, whatever happens: when the
/// peer disconnects, its requests go.
pub proof fn law_inbound_requests_registered<S>(
    before: ProtocolView,
    input: ProtocolInput<S>,
    answers: Answers,
    after: ProtocolView,
    actions: Seq<ActionView<S>>,
)
    requires
        before.handles(input, answers, after, actions),
        inbound_requests_registered(before),
    ensures
        inbound_requests_registered(after),
{
    assert forall|key: (PeerId, RequestId)| #[trigger]
        after.pending_inbound_requests.contains(key) implies after.peers.contains_key(key.0)
        && after.peers[key.0].active_inbound.contains_key(key.1) by {
        if before.pending_inbound_requests.contains(key) {
        }
    }
}

/// A request that is under way stays so until its end is reported to the user or the local node has
/// canceled it.
pub proof fn law_request_ends_with_report<S>(
    before: ProtocolView,
    input: ProtocolInput<S>,
    answers: Answers,
    after: ProtocolView,
    actions: Seq<ActionView<S>>,
    peer: PeerId,
    request_id: RequestId,
)
    requires
        before.handles(input, answers, after, actions),
        is_active(before, peer, request_id),
    ensures
        is_active(after, peer, request_id) || reports_end(actions, peer, request_id)
            || is_cancellation(input, peer, request_id),
{
    if let ProtocolInput::Transport(TransportEvent::ConnectionClosed { peer: p }) = input {
        if p == peer {
            let (active, inbound) = choose|active: Seq<RequestId>, inbound: Seq<RequestId>|
                state::lists(active, before.peers[peer].active) && state::lists(
                    inbound,
                    before.peers[peer].active_inbound.dom(),
                ) && actions == #[trigger] state::closed_actions::<S>(peer, active, inbound);
            assert(active.to_set().contains(request_id));
            let i = choose|i: int| 0 <= i < active.len() && active[i] == request_id;
            assert(ends_request(actions[i], peer, request_id));
        }
    } else if actions.len() > 0 {
        let first = ends_request(actions[0], peer, request_id);
        assert(first || !first);
    }
}

/// The outcome of a request that is not under way is not reported.
pub proof fn law_only_active_requests_end<S>(
    before: ProtocolView,
    peer: PeerId,
    request_id: RequestId,
    fallback: Option<Seq<char>>,
    message: Result<Seq<u8>, RequestResponseError>,
)
    requires
        !is_active(before, peer, request_id),
    ensures
        before.on_substream_event::<S>(peer, request_id, fallback, message) == (
            before,
            Seq::<ActionView<S>>::empty(),
        ),
{
}

proof fn lemma_inactive_not_reported<S>(
    context: PeerView,
    peer: PeerId,
    request_id: RequestId,
    actions: Seq<ActionView<S>>,
)
    requires
        state::closes(peer, context, actions),
        !context.active.contains(request_id),
    ensures
        !reports_end(actions, peer, request_id),
{
    let (active, inbound) = choose|active: Seq<RequestId>, inbound: Seq<RequestId>|
        state::lists(active, context.active) && state::lists(inbound, context.active_inbound.dom())
            && actions == #[trigger] state::closed_actions::<S>(peer, active, inbound);
    assert forall|i: int| 0 <= i < actions.len() implies !ends_request(
        #[trigger] actions[i],
        peer,
        request_id,
    ) by {
        if i < active.len() {
            assert(active.to_set().contains(active[i]));
        }
    }
}

/// A request that fails because its substream cannot be opened is reported once: when the peer
/// disconnects later on, it is not reported again.
pub proof fn law_failure_reported_once<S>(
    before: ProtocolView,
    substream: SubstreamId,
    error: Error,
    actions: Seq<ActionView<S>>,
)
    requires
        before.pending_outbound.contains_key(substream),
        before.peers.contains_key(before.pending_outbound[substream].peer),
        ({
            let peer = before.pending_outbound[substream].peer;
            let (failed, _) = before.on_substream_open_failure::<S>(substream, error);
            state::closes(peer, failed.peers[peer], actions)
        }),
    ensures
        ({
            let request = before.pending_outbound[substream];
            let (_, reported) = before.on_substream_open_failure::<S>(substream, error);
            &&& reports_end(reported, request.peer, request.request_id)
            &&& !reports_end(actions, request.peer, request.request_id)
        }),
{
    let request = before.pending_outbound[substream];
    let (failed, reported) = before.on_substream_open_failure::<S>(substream, error);
    assert(ends_request(reported[0], request.peer, request.request_id));
    lemma_inactive_not_reported(
        failed.peers[request.peer],
        request.peer,
        request.request_id,
        actions,
    );
}

/// A request that the transport has no substream for is reported once: when the peer disconnects
/// later on, it is not reported again.
pub proof fn law_refused_request_reported_once<S>(
    before: ProtocolView,
    request: RequestView,
    dial_options: DialOptions,
    actions: Seq<ActionView<S>>,
)
    requires
        before.peers.contains_key(request.peer),
        !is_active(before, request.peer, request.request_id),
        ({
            let (refused, _) = before.on_send_request::<S>(request, dial_options, None, false);
            state::closes(request.peer, refused.peers[request.peer], actions)
        }),
    ensures
        ({
            let (_, reported) = before.on_send_request::<S>(request, dial_options, None, false);
            &&& reported == seq![
                state::request_failed::<S>(
                    request.peer,
                    request.request_id,
                    RequestResponseError::Rejected,
                ),
            ]
            &&& !reports_end(actions, request.peer, request.request_id)
        }),
{
    let (refused, _) = before.on_send_request::<S>(request, dial_options, None, false);
    lemma_inactive_not_reported(
        refused.peers[request.peer],
        request.peer,
        request.request_id,
        actions,
    );
}

/// A request to a connected peer is sent once its substream opens, in the form that was negotiated.
pub proof fn law_request_sent<S>(
    before: ProtocolView,
    request: RequestView,
    dial_options: DialOptions,
    id: SubstreamId,
    substream: S,
    fallback: Option<Seq<char>>,
)
    requires
        before.peers.contains_key(request.peer),
    ensures
        ({
            let (accepted, none) = before.on_send_request::<S>(
                request,
                dial_options,
                Some(id),
                false,
            );
            let (opened, actions) = accepted.on_outbound_substream(
                request.peer,
                id,
                substream,
                fallback,
            );
            &&& none == Seq::<ActionView<S>>::empty()
            &&& is_active(opened, request.peer, request.request_id)
            &&& actions == seq![
                ActionView::SendRequest {
                    peer: request.peer,
                    request_id: request.request_id,
                    fallback,
                    request: state::negotiated_request(request, fallback),
                    substream,
                },
            ]
        }),
{
}

/// A request to a peer that is dialed first is sent once there is a connection and its substream
/// opens.
pub proof fn law_request_sent_after_dial<S>(
    before: ProtocolView,
    request: RequestView,
    id: SubstreamId,
    substream: S,
    fallback: Option<Seq<char>>,
)
    requires
        !before.peers.contains_key(request.peer),
    ensures
        ({
            let (dialing, _) = before.on_send_request::<S>(request, DialOptions::Dial, None, true);
            let (connected, _) = dialing.on_connection_established::<S>(request.peer, Some(id));
            let (opened, actions) = connected.on_outbound_substream(
                request.peer,
                id,
                substream,
                fallback,
            );
            &&& is_active(opened, request.peer, request.request_id)
            &&& actions == seq![
                ActionView::SendRequest {
                    peer: request.peer,
                    request_id: request.request_id,
                    fallback,
                    request: state::negotiated_request(request, fallback),
                    substream,
                },
            ]
        }),
{
}

/// The user decides on an inbound request once: after a decision, another one changes nothing.
pub proof fn law_decided_once<S>(
    before: ProtocolView,
    request_id: RequestId,
    first: ActionView<S>,
    second: ActionView<S>,
)
    ensures
        ({
            let (decided, _) = before.on_decision(request_id, first);
            decided.on_decision(request_id, second) == (decided, Seq::<ActionView<S>>::empty())
        }),
{
}

/// The response to a request that was read is sent over the substream of that request.
pub proof fn law_response_sent<S>(
    before: ProtocolView,
    peer: PeerId,
    request_id: RequestId,
    request: Seq<u8>,
    response: Seq<u8>,
)
    requires
        before.peers.contains_key(peer),
        before.peers[peer].active_inbound.contains_key(request_id),
        before.pending_inbound_requests.contains((peer, request_id)),
    ensures
        ({
            let (read, _) = before.on_inbound_request::<S>(peer, request_id, Some(request));
            let action = ActionView::<S>::SendResponse { request_id, response };
            &&& read.awaits_response(request_id)
            &&& read.on_decision(request_id, action).1 == seq![action]
        }),
{
}

} // verus!
