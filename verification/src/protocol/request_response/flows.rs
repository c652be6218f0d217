//! What comes of a request, from the first input to the last action.

use super::handle::{
    DialOptions, RequestResponseCommand, RequestResponseError, RequestResponseEvent,
};
use super::state;
use super::state::{Action, Answers, ProtocolInput, ProtocolView};
use crate::error::{Error, NegotiationError, SubstreamError};
use crate::peer_id::PeerId;
use crate::protocol::{Direction, TransportEvent};
use crate::types::{ProtocolName, RequestId, SubstreamId};
use vstd::prelude::*;

verus! {

/// Whether an input leads from one state to the other and leaves these actions to do.
pub open spec fn leads<S>(
    before: ProtocolView,
    input: ProtocolInput<S>,
    answers: Answers,
    after: ProtocolView,
    actions: Seq<Action<S>>,
) -> bool {
    before.handles(input, answers, after, state::action_views(actions))
}

/// Whether two names are the same, or neither is there.
pub open spec fn same_name(a: Option<ProtocolName>, b: Option<ProtocolName>) -> bool {
    match (a, b) {
        (Some(a), Some(b)) => a@ == b@,
        (None, None) => true,
        _ => false,
    }
}

/// The report that a request has failed.
pub open spec fn is_failure<S>(
    action: Action<S>,
    peer: PeerId,
    request_id: RequestId,
    error: RequestResponseError,
) -> bool {
    action == Action::<S>::Report(RequestResponseEvent::RequestFailed { peer, request_id, error })
}

/// The report of a response.
pub open spec fn is_response<S>(
    action: Action<S>,
    peer: PeerId,
    request_id: RequestId,
    fallback: Option<ProtocolName>,
    response: Seq<u8>,
) -> bool {
    action matches Action::Report(
        RequestResponseEvent::ResponseReceived { peer: p, request_id: id, fallback: f, response: r },
    ) && p == peer && id == request_id && same_name(f, fallback) && r@ == response
}

/// The report of an inbound request.
pub open spec fn is_request<S>(
    action: Action<S>,
    peer: PeerId,
    request_id: RequestId,
    fallback: Option<ProtocolName>,
    request: Seq<u8>,
) -> bool {
    action matches Action::Report(
        RequestResponseEvent::RequestReceived { peer: p, request_id: id, fallback: f, request: r },
    ) && p == peer && id == request_id && same_name(f, fallback) && r@ == request
}

proof fn lemma_views<S>(actions: Seq<Action<S>>)
    ensures
        state::action_views(actions).len() == actions.len(),
        forall|i: int|
            0 <= i < actions.len() ==> state::action_views(actions)[i] == (#[trigger] actions[i])@,
{
}

/// Whether the limit on inbound requests leaves room for another one.
pub open spec fn has_room(view: ProtocolView) -> bool {
    view.max_concurrent_inbound_requests matches Some(max) ==> view.pending_inbound_requests.len()
        + view.pending_outbound_responses.dom().len() < max
}

/// A connection makes a peer connected, unless the request that it was dialed for has no substream,
/// and the end of the connection makes it disconnected.
pub proof fn law_connected_peers<S>(
    before: ProtocolView,
    peer: PeerId,
    address: crate::address::Multiaddr,
    answers: Answers,
    connected: ProtocolView,
    first: Seq<Action<S>>,
    last: ProtocolView,
    second: Seq<Action<S>>,
)
    requires
        leads(
            before,
            ProtocolInput::Transport(TransportEvent::ConnectionEstablished { peer, address }),
            answers,
            connected,
            first,
        ),
        leads(
            connected,
            ProtocolInput::Transport(TransportEvent::ConnectionClosed { peer }),
            answers,
            last,
            second,
        ),
    ensures
        connected.peers.contains_key(peer) <==> before.peers.contains_key(peer)
            || !before.pending_dials.contains_key(peer) || answers.opened is Some,
        !last.peers.contains_key(peer),
{
}

/// The response that the user gives to an inbound request is what is sent over the substream of that
/// request: the substream is read, the request is reported as it was read, and the response goes out
/// as it was given.
pub proof fn law_request_answered<S>(
    before: ProtocolView,
    peer: PeerId,
    protocol: ProtocolName,
    fallback: Option<ProtocolName>,
    substream: S,
    request: Vec<u8>,
    response: Vec<u8>,
    answers: Answers,
    reading: ProtocolView,
    first: Seq<Action<S>>,
    read: ProtocolView,
    second: Seq<Action<S>>,
    answered: ProtocolView,
    third: Seq<Action<S>>,
    finished: ProtocolView,
    fourth: Seq<Action<S>>,
)
    requires
        before.peers.contains_key(peer),
        has_room(before),
        leads(
            before,
            ProtocolInput::Transport(
                TransportEvent::SubstreamOpened {
                    peer,
                    protocol,
                    fallback,
                    direction: Direction::Inbound,
                    substream,
                },
            ),
            answers,
            reading,
            first,
        ),
        leads(
            reading,
            ProtocolInput::InboundRequest {
                peer,
                request_id: answers.request_id,
                request: Ok(request),
            },
            answers,
            read,
            second,
        ),
        leads(
            read,
            ProtocolInput::Command(
                RequestResponseCommand::SendResponse { request_id: answers.request_id, response },
            ),
            answers,
            answered,
            third,
        ),
        leads(
            answered,
            ProtocolInput::ResponseFinished { request_id: answers.request_id, sent: true },
            answers,
            finished,
            fourth,
        ),
    ensures
        first == seq![
            Action::ReadRequest { peer, request_id: answers.request_id, substream },
        ],
        second.len() == 2,
        second[0] == (Action::<S>::AwaitResponse { peer, request_id: answers.request_id }),
        is_request(second[1], peer, answers.request_id, fallback, request@),
        third.len() == 1,
        third[0] matches Action::SendResponse { request_id, response: sent } && request_id
            == answers.request_id && sent@ == response@,
        fourth == seq![Action::<S>::ResponseSent { request_id: answers.request_id }],
        !finished.pending_outbound_responses.contains_key(answers.request_id),
{
    lemma_views(first);
    lemma_views(second);
    lemma_views(third);
    lemma_views(fourth);
    assert(first =~= seq![Action::ReadRequest { peer, request_id: answers.request_id, substream }]);
    assert(fourth =~= seq![Action::<S>::ResponseSent { request_id: answers.request_id }]);
}

/// An inbound request that the user rejects has its substream closed, and no response is sent.
pub proof fn law_request_rejected<S>(
    before: ProtocolView,
    peer: PeerId,
    protocol: ProtocolName,
    fallback: Option<ProtocolName>,
    substream: S,
    request: Vec<u8>,
    answers: Answers,
    reading: ProtocolView,
    first: Seq<Action<S>>,
    read: ProtocolView,
    second: Seq<Action<S>>,
    rejected: ProtocolView,
    third: Seq<Action<S>>,
)
    requires
        before.peers.contains_key(peer),
        has_room(before),
        leads(
            before,
            ProtocolInput::Transport(
                TransportEvent::SubstreamOpened {
                    peer,
                    protocol,
                    fallback,
                    direction: Direction::Inbound,
                    substream,
                },
            ),
            answers,
            reading,
            first,
        ),
        leads(
            reading,
            ProtocolInput::InboundRequest {
                peer,
                request_id: answers.request_id,
                request: Ok(request),
            },
            answers,
            read,
            second,
        ),
        leads(
            read,
            ProtocolInput::Command(
                RequestResponseCommand::RejectRequest { request_id: answers.request_id },
            ),
            answers,
            rejected,
            third,
        ),
    ensures
        third == seq![Action::<S>::RejectRequest { request_id: answers.request_id }],
{
    lemma_views(third);
    assert(third =~= seq![Action::<S>::RejectRequest { request_id: answers.request_id }]);
}

/// A request that cannot be read is dropped together with its substream, and nothing is reported.
pub proof fn law_unreadable_request_dropped<S>(
    before: ProtocolView,
    peer: PeerId,
    protocol: ProtocolName,
    fallback: Option<ProtocolName>,
    substream: S,
    error: Error,
    answers: Answers,
    reading: ProtocolView,
    first: Seq<Action<S>>,
    dropped: ProtocolView,
    second: Seq<Action<S>>,
)
    requires
        before.peers.contains_key(peer),
        has_room(before),
        leads(
            before,
            ProtocolInput::Transport(
                TransportEvent::SubstreamOpened {
                    peer,
                    protocol,
                    fallback,
                    direction: Direction::Inbound,
                    substream,
                },
            ),
            answers,
            reading,
            first,
        ),
        leads(
            reading,
            ProtocolInput::InboundRequest {
                peer,
                request_id: answers.request_id,
                request: Err(error),
            },
            answers,
            dropped,
            second,
        ),
    ensures
        second == seq![Action::<S>::DiscardRequest { peer, request_id: answers.request_id }],
        !dropped.pending_inbound_requests.contains((peer, answers.request_id)),
        dropped.pending_outbound_responses == before.pending_outbound_responses,
{
    lemma_views(second);
    assert(second =~= seq![Action::<S>::DiscardRequest { peer, request_id: answers.request_id }]);
}

/// Where the limit on inbound requests leaves no room, the substream of another one is closed and
/// nothing else happens.
pub proof fn law_request_over_the_limit_refused<S>(
    before: ProtocolView,
    peer: PeerId,
    protocol: ProtocolName,
    fallback: Option<ProtocolName>,
    substream: S,
    answers: Answers,
    after: ProtocolView,
    actions: Seq<Action<S>>,
)
    requires
        !has_room(before),
        leads(
            before,
            ProtocolInput::Transport(
                TransportEvent::SubstreamOpened {
                    peer,
                    protocol,
                    fallback,
                    direction: Direction::Inbound,
                    substream,
                },
            ),
            answers,
            after,
            actions,
        ),
    ensures
        after == before,
        actions == seq![Action::CloseSubstream { substream }],
{
    lemma_views(actions);
    assert(actions =~= seq![Action::CloseSubstream { substream }]);
}

/// Whether a command is that to send a request with these bytes to a peer, and with these other bytes
/// where the substream is negotiated with the fallback protocol.
pub open spec fn sends_request(
    command: RequestResponseCommand,
    peer: PeerId,
    request_id: RequestId,
    request: Seq<u8>,
    fallback: Option<(Seq<char>, Seq<u8>)>,
    dial_options: DialOptions,
) -> bool {
    match command {
        RequestResponseCommand::SendRequest { peer: p, request_id: id, request: r, dial_options: d } => {
            p == peer && id == request_id && r@ == request && d == dial_options && fallback is None
        },
        RequestResponseCommand::SendRequestWithFallback {
            peer: p,
            request_id: id,
            request: r,
            fallback: f,
            dial_options: d,
        } => p == peer && id == request_id && r@ == request && d == dial_options && fallback
            == Some((f.0@, f.1@)),
        _ => false,
    }
}

/// Whether an action sends a request over a substream: the bytes for the fallback protocol if the
/// substream was negotiated with it, and the others if not.
pub open spec fn request_goes_out<S>(
    action: Action<S>,
    peer: PeerId,
    request_id: RequestId,
    request: Seq<u8>,
    fallback: Option<(Seq<char>, Seq<u8>)>,
    negotiated: Option<ProtocolName>,
    substream: S,
) -> bool {
    action matches Action::SendRequest {
        peer: p,
        request_id: id,
        fallback: f,
        request: bytes,
        substream: s,
    } && p == peer && id == request_id && s == substream && same_name(f, negotiated) && bytes@ == (
    match (negotiated, fallback) {
        (Some(name), Some((fallback_name, fallback_request))) if name@ == fallback_name =>
            fallback_request,
        _ => request,
    })
}

/// A request to a connected peer goes out over the substream that was opened for it, in the form that
/// was negotiated, and its response is reported as it came in.
pub proof fn law_response_of_connected_peer<S>(
    before: ProtocolView,
    command: RequestResponseCommand,
    peer: PeerId,
    request_id: RequestId,
    request: Seq<u8>,
    fallback: Option<(Seq<char>, Seq<u8>)>,
    dial_options: DialOptions,
    id: SubstreamId,
    answers: Answers,
    sending: ProtocolView,
    first: Seq<Action<S>>,
    protocol: ProtocolName,
    negotiated: Option<ProtocolName>,
    substream: S,
    sent: ProtocolView,
    second: Seq<Action<S>>,
    response: Vec<u8>,
    done: ProtocolView,
    third: Seq<Action<S>>,
)
    requires
        before.peers.contains_key(peer),
        sends_request(command, peer, request_id, request, fallback, dial_options),
        answers.opened == Some(id),
        leads(before, ProtocolInput::Command(command), answers, sending, first),
        leads(
            sending,
            ProtocolInput::Transport(
                TransportEvent::SubstreamOpened {
                    peer,
                    protocol,
                    fallback: negotiated,
                    direction: Direction::Outbound(id),
                    substream,
                },
            ),
            answers,
            sent,
            second,
        ),
        leads(
            sent,
            ProtocolInput::SubstreamEvent {
                peer,
                request_id,
                fallback: negotiated,
                message: Ok(response),
            },
            answers,
            done,
            third,
        ),
    ensures
        first.len() == 0,
        second.len() == 1,
        request_goes_out(second[0], peer, request_id, request, fallback, negotiated, substream),
        third.len() == 1,
        is_response(third[0], peer, request_id, negotiated, response@),
        !done.peers[peer].active.contains(request_id),
{
    lemma_views(first);
    lemma_views(second);
    lemma_views(third);
}

/// A request to a peer that there is no connection to goes out over the substream that is opened for
/// it once the peer has been dialed, in the form that was negotiated.
pub proof fn law_request_to_dialed_peer<S>(
    before: ProtocolView,
    command: RequestResponseCommand,
    peer: PeerId,
    request_id: RequestId,
    request: Seq<u8>,
    fallback: Option<(Seq<char>, Seq<u8>)>,
    answers: Answers,
    dialing: ProtocolView,
    first: Seq<Action<S>>,
    address: crate::address::Multiaddr,
    id: SubstreamId,
    connected: ProtocolView,
    second: Seq<Action<S>>,
    protocol: ProtocolName,
    negotiated: Option<ProtocolName>,
    substream: S,
    sent: ProtocolView,
    third: Seq<Action<S>>,
)
    requires
        !before.peers.contains_key(peer),
        sends_request(command, peer, request_id, request, fallback, DialOptions::Dial),
        answers.dialed,
        answers.opened == Some(id),
        leads(before, ProtocolInput::Command(command), answers, dialing, first),
        leads(
            dialing,
            ProtocolInput::Transport(TransportEvent::ConnectionEstablished { peer, address }),
            answers,
            connected,
            second,
        ),
        leads(
            connected,
            ProtocolInput::Transport(
                TransportEvent::SubstreamOpened {
                    peer,
                    protocol,
                    fallback: negotiated,
                    direction: Direction::Outbound(id),
                    substream,
                },
            ),
            answers,
            sent,
            third,
        ),
    ensures
        first.len() == 0,
        second.len() == 0,
        third.len() == 1,
        request_goes_out(third[0], peer, request_id, request, fallback, negotiated, substream),
        sent.peers[peer].active.contains(request_id),
{
    lemma_views(first);
    lemma_views(second);
    lemma_views(third);
}

/// A request that cannot go out is reported to the user, with the reason: there is no connection and
/// the peer is not to be dialed, it cannot be dialed, or no substream can be opened.
pub proof fn law_request_not_sent<S>(
    before: ProtocolView,
    command: RequestResponseCommand,
    peer: PeerId,
    request_id: RequestId,
    request: Seq<u8>,
    fallback: Option<(Seq<char>, Seq<u8>)>,
    dial_options: DialOptions,
    answers: Answers,
    after: ProtocolView,
    actions: Seq<Action<S>>,
)
    requires
        sends_request(command, peer, request_id, request, fallback, dial_options),
        if before.peers.contains_key(peer) {
            answers.opened is None
        } else {
            dial_options is Reject || !answers.dialed
        },
        leads(before, ProtocolInput::Command(command), answers, after, actions),
    ensures
        after == before,
        actions.len() == 1,
        is_failure(
            actions[0],
            peer,
            request_id,
            if !before.peers.contains_key(peer) && dial_options is Reject {
                RequestResponseError::NotConnected
            } else {
                RequestResponseError::Rejected
            },
        ),
{
    lemma_views(actions);
}

/// A request whose peer cannot be dialed in the end, or has no substream once it is connected, is
/// reported as rejected.
pub proof fn law_dialed_request_fails<S>(
    before: ProtocolView,
    command: RequestResponseCommand,
    peer: PeerId,
    request_id: RequestId,
    request: Seq<u8>,
    fallback: Option<(Seq<char>, Seq<u8>)>,
    answers: Answers,
    dialing: ProtocolView,
    first: Seq<Action<S>>,
    address: crate::address::Multiaddr,
    refused: Answers,
    unopened: ProtocolView,
    second: Seq<Action<S>>,
    undialed: ProtocolView,
    third: Seq<Action<S>>,
)
    requires
        !before.peers.contains_key(peer),
        sends_request(command, peer, request_id, request, fallback, DialOptions::Dial),
        answers.dialed,
        refused.opened is None,
        leads(before, ProtocolInput::Command(command), answers, dialing, first),
        leads(
            dialing,
            ProtocolInput::Transport(TransportEvent::ConnectionEstablished { peer, address }),
            refused,
            unopened,
            second,
        ),
        leads(
            dialing,
            ProtocolInput::Transport(TransportEvent::DialFailure { peer, address }),
            answers,
            undialed,
            third,
        ),
    ensures
        second.len() == 1,
        is_failure(second[0], peer, request_id, RequestResponseError::Rejected),
        third.len() == 1,
        is_failure(third[0], peer, request_id, RequestResponseError::Rejected),
        !unopened.pending_dials.contains_key(peer),
        !undialed.pending_dials.contains_key(peer),
{
    lemma_views(first);
    lemma_views(second);
    lemma_views(third);
}

/// A request whose substream cannot be opened is reported: as unsupported where the peer does not
/// speak the protocol, and as rejected otherwise.
pub proof fn law_unopened_request_fails<S>(
    before: ProtocolView,
    command: RequestResponseCommand,
    peer: PeerId,
    request_id: RequestId,
    request: Seq<u8>,
    fallback: Option<(Seq<char>, Seq<u8>)>,
    dial_options: DialOptions,
    id: SubstreamId,
    answers: Answers,
    sending: ProtocolView,
    first: Seq<Action<S>>,
    error: Error,
    failed: ProtocolView,
    second: Seq<Action<S>>,
)
    requires
        before.peers.contains_key(peer),
        sends_request(command, peer, request_id, request, fallback, dial_options),
        answers.opened == Some(id),
        leads(before, ProtocolInput::Command(command), answers, sending, first),
        leads(
            sending,
            ProtocolInput::Transport(
                TransportEvent::SubstreamOpenFailure { substream: id, error },
            ),
            answers,
            failed,
            second,
        ),
    ensures
        second.len() == 1,
        is_failure(
            second[0],
            peer,
            request_id,
            if error == Error::SubstreamError(
                SubstreamError::NegotiationError(NegotiationError::MultistreamSelectFailed),
            ) {
                RequestResponseError::UnsupportedProtocol
            } else {
                RequestResponseError::Rejected
            },
        ),
        !failed.pending_outbound.contains_key(id),
        !failed.peers[peer].active.contains(request_id),
{
    lemma_views(first);
    lemma_views(second);
}

/// A request that is out can be canceled, and what becomes of it is reported: a failure with its
/// reason, or nothing where it was canceled.
pub proof fn law_outcome_of_sent_request<S>(
    before: ProtocolView,
    peer: PeerId,
    request_id: RequestId,
    id: SubstreamId,
    answers: Answers,
    protocol: ProtocolName,
    negotiated: Option<ProtocolName>,
    substream: S,
    sent: ProtocolView,
    first: Seq<Action<S>>,
    canceling: ProtocolView,
    second: Seq<Action<S>>,
    error: RequestResponseError,
    failed: ProtocolView,
    third: Seq<Action<S>>,
)
    requires
        before.peers.contains_key(peer),
        before.peers[peer].active.contains(request_id),
        before.pending_outbound.contains_key(id),
        before.pending_outbound[id].request_id == request_id,
        leads(
            before,
            ProtocolInput::Transport(
                TransportEvent::SubstreamOpened {
                    peer,
                    protocol,
                    fallback: negotiated,
                    direction: Direction::Outbound(id),
                    substream,
                },
            ),
            answers,
            sent,
            first,
        ),
        leads(
            sent,
            ProtocolInput::Command(RequestResponseCommand::CancelRequest { request_id }),
            answers,
            canceling,
            second,
        ),
        leads(
            sent,
            ProtocolInput::SubstreamEvent {
                peer,
                request_id,
                fallback: negotiated,
                message: Err(error),
            },
            answers,
            failed,
            third,
        ),
    ensures
        second == seq![Action::<S>::CancelRequest { request_id }],
        if error is Canceled {
            third.len() == 0
        } else {
            third.len() == 1 && is_failure(third[0], peer, request_id, error)
        },
        !failed.peers[peer].active.contains(request_id),
        !failed.pending_outbound_cancels.contains(request_id),
{
    lemma_views(first);
    lemma_views(second);
    lemma_views(third);
    assert(second =~= seq![Action::<S>::CancelRequest { request_id }]);
}

/// When the connection to a peer closes, each of its requests that was under way is reported as
/// rejected, each of its inbound requests that was being read is dropped, and nothing else happens.
pub proof fn law_connection_lost<S>(
    before: ProtocolView,
    peer: PeerId,
    answers: Answers,
    after: ProtocolView,
    actions: Seq<Action<S>>,
    request_id: RequestId,
)
    requires
        before.peers.contains_key(peer),
        leads(
            before,
            ProtocolInput::Transport(TransportEvent::ConnectionClosed { peer }),
            answers,
            after,
            actions,
        ),
    ensures
        before.peers[peer].active.contains(request_id) <==> exists|i: int|
            0 <= i < actions.len() && is_failure(
                #[trigger] actions[i],
                peer,
                request_id,
                RequestResponseError::Rejected,
            ),
        before.peers[peer].active_inbound.contains_key(request_id) <==> exists|i: int|
            0 <= i < actions.len() && #[trigger] actions[i] == (Action::<S>::DiscardRequest {
                peer,
                request_id,
            }),
        forall|i: int|
            0 <= i < actions.len() ==> (#[trigger] actions[i]) is DiscardRequest || (
            actions[i] matches Action::Report(event) && event is RequestFailed),
        after.peers == before.peers.remove(peer),
        after.pending_outbound == before.pending_outbound,
        after.pending_dials == before.pending_dials,
        after.pending_outbound_responses == before.pending_outbound_responses,
{
    lemma_views(actions);
    let context = before.peers[peer];
    let views = state::action_views(actions);
    let (active, inbound) = choose|active: Seq<RequestId>, inbound: Seq<RequestId>|
        state::lists(active, context.active) && state::lists(inbound, context.active_inbound.dom())
            && views == #[trigger] state::closed_actions::<S>(peer, active, inbound);
    assert forall|i: int| 0 <= i < actions.len() implies (if i < active.len() {
        is_failure(#[trigger] actions[i], peer, active[i], RequestResponseError::Rejected)
            && context.active.contains(active[i])
    } else {
        actions[i] == (Action::<S>::DiscardRequest { peer, request_id: inbound[i - active.len()] })
            && context.active_inbound.contains_key(inbound[i - active.len()])
    }) by {
        assert(views[i] == actions[i]@);
        if i < active.len() {
            assert(active.to_set().contains(active[i]));
        } else {
            assert(inbound.to_set().contains(inbound[i - active.len()]));
        }
    }
    if context.active.contains(request_id) {
        assert(active.to_set().contains(request_id));
        let i = choose|i: int| 0 <= i < active.len() && active[i] == request_id;
        assert(is_failure(actions[i], peer, active[i], RequestResponseError::Rejected));
    }
    if context.active_inbound.contains_key(request_id) {
        assert(inbound.to_set().contains(request_id));
        let i = choose|i: int| 0 <= i < inbound.len() && inbound[i] == request_id;
        assert(actions[active.len() + i] == (Action::<S>::DiscardRequest {
            peer,
            request_id: inbound[i],
        }));
    }
}

/// Every action has its cause: a response or a rejection the command of the user, a cancellation the
/// command of the user, a request that goes out its substream, and each report what it reports.
pub proof fn law_actions_have_their_cause<S>(
    before: ProtocolView,
    input: ProtocolInput<S>,
    answers: Answers,
    after: ProtocolView,
    actions: Seq<Action<S>>,
    i: int,
)
    requires
        leads(before, input, answers, after, actions),
        0 <= i < actions.len(),
    ensures
        match actions[i] {
            Action::SendResponse { request_id, response } => input matches ProtocolInput::Command(
                RequestResponseCommand::SendResponse { request_id: id, response: given },
            ) && id == request_id && given@ == response@,
            Action::RejectRequest { request_id } => input == ProtocolInput::<S>::Command(
                RequestResponseCommand::RejectRequest { request_id },
            ),
            Action::CancelRequest { request_id } => input == ProtocolInput::<S>::Command(
                RequestResponseCommand::CancelRequest { request_id },
            ),
            Action::ResponseSent { request_id } => input == (ProtocolInput::<S>::ResponseFinished {
                request_id,
                sent: true,
            }),
            Action::SendRequest { peer, substream, .. } => input matches ProtocolInput::Transport(
                TransportEvent::SubstreamOpened { peer: p, direction, substream: s, .. },
            ) && direction is Outbound && p == peer && s == substream,
            Action::ReadRequest { peer, substream, .. } => input matches ProtocolInput::Transport(
                TransportEvent::SubstreamOpened { peer: p, direction, substream: s, .. },
            ) && direction is Inbound && p == peer && s == substream,
            Action::CloseSubstream { substream } => input matches ProtocolInput::Transport(
                TransportEvent::SubstreamOpened { direction, substream: s, .. },
            ) && direction is Inbound && s == substream,
            Action::AwaitResponse { peer, request_id } => input
                matches ProtocolInput::InboundRequest { peer: p, request_id: id, request } && p
                == peer && id == request_id && request is Ok,
            Action::DiscardRequest { peer, .. } => match input {
                ProtocolInput::InboundRequest { peer: p, request, .. } => p == peer
                    && request is Err,
                ProtocolInput::Transport(TransportEvent::ConnectionClosed { peer: p }) => p == peer,
                _ => false,
            },
            Action::Report(RequestResponseEvent::RequestReceived { peer, request_id, request, .. }) =>
                input matches ProtocolInput::InboundRequest {
                    peer: p,
                    request_id: id,
                    request: read,
                } && p == peer && id == request_id && (read matches Ok(bytes) && bytes@ == request@),
            Action::Report(
                RequestResponseEvent::ResponseReceived { peer, request_id, response, .. },
            ) => input matches ProtocolInput::SubstreamEvent {
                peer: p,
                request_id: id,
                message,
                ..
            } && p == peer && id == request_id && (message matches Ok(bytes) && bytes@
                == response@),
            Action::Report(RequestResponseEvent::RequestFailed { peer, request_id, error }) =>
                match input {
                    ProtocolInput::SubstreamEvent { peer: p, request_id: id, message, .. } => p
                        == peer && id == request_id && message == Err::<Vec<u8>, _>(error),
                    ProtocolInput::Transport(_) => true,
                    ProtocolInput::Command(command) => command is SendRequest
                        || command is SendRequestWithFallback,
                    _ => false,
                },
        },
{
    lemma_views(actions);
    let views = state::action_views(actions);
    assert(views[i] == actions[i]@);
    if let ProtocolInput::Transport(TransportEvent::ConnectionClosed { peer }) = input {
        if before.peers.contains_key(peer) {
            let context = before.peers[peer];
            let (active, inbound) = choose|active: Seq<RequestId>, inbound: Seq<RequestId>|
                state::lists(active, context.active) && state::lists(
                    inbound,
                    context.active_inbound.dom(),
                ) && views == #[trigger] state::closed_actions::<S>(peer, active, inbound);
            assert(views == state::closed_actions::<S>(peer, active, inbound));
        }
    } else {
        assert(views == before.on_input(input, answers).1);
    }
}

/// Everything happens once: a request is sent over the first substream that opens for it, an
/// inbound request is reported the first time that it is read, and a request is canceled by the
/// first command to do so. What comes a second time is ignored.
pub proof fn law_nothing_happens_twice<S>(
    before: ProtocolView,
    input: ProtocolInput<S>,
    answers: Answers,
    middle: ProtocolView,
    first: Seq<Action<S>>,
    after: ProtocolView,
    second: Seq<Action<S>>,
)
    requires
        match input {
            ProtocolInput::Transport(TransportEvent::SubstreamOpened { direction, .. }) => direction
                is Outbound,
            ProtocolInput::InboundRequest { .. } => true,
            ProtocolInput::Command(command) => command is CancelRequest || command is SendResponse
                || command is RejectRequest,
            ProtocolInput::SubstreamEvent { .. } => true,
            _ => false,
        },
        leads(before, input, answers, middle, first),
        leads(middle, input, answers, after, second),
    ensures
        second.len() == 0,
        input matches ProtocolInput::Transport(
            TransportEvent::SubstreamOpened { direction: Direction::Outbound(id), .. },
        ) ==> !middle.pending_outbound.contains_key(id),
        input matches ProtocolInput::InboundRequest { peer, request_id, .. }
            ==> middle.peers.contains_key(peer)
            ==> !middle.peers[peer].active_inbound.contains_key(request_id),
        input matches ProtocolInput::Command(RequestResponseCommand::CancelRequest { request_id })
            ==> !middle.pending_outbound_cancels.contains(request_id),
{
    lemma_views(first);
    lemma_views(second);
}

} // verus!
