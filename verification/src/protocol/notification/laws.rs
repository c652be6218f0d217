//! What holds of every notification stream.

use super::state;
use super::state::{ActionView, HandshakeEvent, OutboundView, StateView};
use super::types::{EventView, NotificationCommand, NotificationError, ValidationResult};
use super::{ProtocolInput, ProtocolView};
use crate::peer_id::PeerId;
use crate::protocol::TransportEvent;
use crate::types::SubstreamId;
use vstd::prelude::*;

verus! {

/// The report that a notification stream is open.
pub open spec fn is_opened<S>(action: ActionView<S>) -> bool {
    action matches ActionView::Report(event) && event is NotificationStreamOpened
}

/// Whether some action is the report that a notification stream is open.
pub open spec fn reports_opened<S>(actions: Seq<ActionView<S>>) -> bool {
    exists|i: int| 0 <= i < actions.len() && is_opened(#[trigger] actions[i])
}

/// The user learns that a notification stream is open exactly when an event of the handshake
/// service makes it so, and that takes both substreams: the last one to open does it.
pub proof fn law_opened_takes_both_substreams<S>(
    peer: PeerId,
    state: StateView<S>,
    auto_accept: bool,
    event: HandshakeEvent<S>,
)
    ensures
        ({
            let (next, actions) = state::handshake_step(peer, state, auto_accept, event);
            let by_outbound = event is OutboundNegotiated && (state matches StateView::Validating {
                outbound,
                inbound,
                ..
            } && outbound is Negotiating && inbound is Open);
            let by_inbound = event is InboundNegotiated && (state matches StateView::Validating {
                outbound,
                inbound,
                ..
            } && outbound is Open && inbound is SendingHandshake);
            &&& reports_opened(actions) <==> by_outbound || by_inbound
            &&& next is Open <==> by_outbound || by_inbound
        }),
{
    let (next, actions) = state::handshake_step(peer, state, auto_accept, event);
    if actions.len() == 3 {
        assert(is_opened(actions[2]) || event is NegotiationError);
    }
}

/// A second inbound substream is closed and nothing else changes.
pub proof fn law_second_inbound_substream_discarded<S>(
    peer: PeerId,
    state: StateView<S>,
    protocol: Seq<char>,
    fallback: Option<Seq<char>>,
    first: S,
    second: S,
)
    requires
        state is Closed || state is OutboundInitiated,
    ensures
        ({
            let (next, _) = state::inbound_step(peer, state, protocol, fallback, first);
            state::inbound_step(peer, next, protocol, fallback, second) == (
                next,
                seq![ActionView::CloseSubstream { substream: second }],
            )
        }),
{
}

/// A failed negotiation is reported to the user if and only if there is an outbound substream,
/// whatever its state.
pub proof fn law_negotiation_failure_reported<S>(
    peer: PeerId,
    state: StateView<S>,
    auto_accept: bool,
)
    requires
        state is Validating,
    ensures
        ({
            let (_, actions) = state::handshake_step(
                peer,
                state,
                auto_accept,
                HandshakeEvent::NegotiationError,
            );
            actions.contains(state::open_failure(peer, NotificationError::Rejected)) <==> !(
            state->Validating_outbound is Closed)
        }),
{
    let (_, actions) = state::handshake_step(
        peer,
        state,
        auto_accept,
        HandshakeEvent::NegotiationError,
    );
    if !(state->Validating_outbound is Closed) {
        assert(actions[2] == state::open_failure::<S>(peer, NotificationError::Rejected));
    }
}

/// A peer whose substreams were being negotiated is `Closed` after a failed negotiation, whatever the
/// state of its substreams: the next command to open a substream asks the transport for one.
pub proof fn law_negotiation_failure_closes<S>(
    view: ProtocolView<S>,
    peer: PeerId,
    substream: SubstreamId,
)
    requires
        view.peers.contains_key(peer),
        view.peers[peer] is Validating,
    ensures
        ({
            let failed = ProtocolInput::Handshake { peer, event: HandshakeEvent::NegotiationError };
            let open = ProtocolInput::Command(NotificationCommand::OpenSubstream { peer });
            let (closed, _) = view.on_input(failed, None);
            let (reopened, _) = closed.on_input(open, Some(substream));
            &&& closed.peers[peer] == (StateView::<S>::Closed {
                pending_open: view.peers[peer]->Validating_outbound.pending_open(),
            })
            &&& reopened.peers[peer] == (StateView::<S>::OutboundInitiated { substream })
            &&& reopened.pending_outbound[substream] == peer
        }),
{
}

/// A connection handler does not outlive the open state of its peer: whatever ends that state also
/// shuts the handler down, unless it is the handler itself that has ended.
pub proof fn law_handler_ends_with_open_state<S>(
    view: ProtocolView<S>,
    input: ProtocolInput<S>,
    opened: Option<SubstreamId>,
    peer: PeerId,
)
    requires
        view.admits(input),
        view.peers.contains_key(peer),
        view.peers[peer] is Open,
    ensures
        ({
            let (after, actions) = view.on_input(input, opened);
            after.peers.contains_key(peer) && after.peers[peer] is Open || actions.contains(
                ActionView::Shutdown { peer },
            ) || input == (ProtocolInput::<S>::Shutdown { peer })
        }),
{
    let (after, actions) = view.on_input(input, opened);
    let shutdown = ActionView::<S>::Shutdown { peer };
    if exists|i: int| 0 <= i < actions.len() && actions[i] == shutdown {
        assert(actions.contains(shutdown));
    } else {
        assert(actions.len() > 0 ==> actions[0] != shutdown);
        assert(actions.len() > 1 ==> actions[1] != shutdown);
        assert(actions.len() > 2 ==> actions[2] != shutdown);
    }
}

/// A failure to open an outbound substream is reported if and only if the peer has an outbound
/// substream. Where it is not reported, the peer is silently converted to `Closed`.
pub proof fn law_open_failure_reported<S>(peer: PeerId, state: StateView<S>)
    ensures
        ({
            let (next, actions) = state::open_failure_step(peer, state);
            let outbound = state is OutboundInitiated || (state matches StateView::Validating {
                outbound,
                ..
            } && !(outbound is Closed));
            &&& actions.contains(state::open_failure(peer, NotificationError::Rejected))
                <==> outbound
            &&& !outbound ==> next == (StateView::<S>::Closed { pending_open: None })
        }),
{
    let (_, actions) = state::open_failure_step(peer, state);
    if state is OutboundInitiated {
        assert(actions[0] == state::open_failure::<S>(peer, NotificationError::Rejected));
    } else if actions.len() == 3 {
        assert(actions[2] == state::open_failure::<S>(peer, NotificationError::Rejected));
    }
}

/// When a connection closes, an open stream is reported closed, a stream that the user has an
/// outbound substream for is reported as failed, and nothing else is reported.
pub proof fn law_connection_closed_reported_once<S>(peer: PeerId, state: StateView<S>)
    ensures
        ({
            let actions = state::closed_actions(peer, state);
            let outbound = state is OutboundInitiated || (state matches StateView::Validating {
                outbound,
                ..
            } && !(outbound is Closed));
            &&& actions.contains(state::stream_closed(peer)) <==> state is Open
            &&& actions.contains(state::open_failure(peer, NotificationError::Rejected))
                <==> outbound
            &&& forall|i: int, j: int|
                0 <= i < j < actions.len() ==> !(#[trigger] actions[i] is Report
                    && #[trigger] actions[j] is Report)
        }),
{
    let actions = state::closed_actions(peer, state);
    if state is Open {
        assert(actions[3] == state::stream_closed::<S>(peer));
    }
    if actions.len() == 3 {
        assert(actions[2] == state::open_failure::<S>(peer, NotificationError::Rejected));
    }
}

/// Rejecting an inbound substream while an outbound one is pending keeps the latter in mind: if it
/// opens after all it is closed, and nothing is pending any more.
pub proof fn law_rejected_pending_substream_closed<S>(
    peer: PeerId,
    state: StateView<S>,
    opened: Option<SubstreamId>,
    protocol: Seq<char>,
    fallback: Option<Seq<char>>,
    id: SubstreamId,
    substream: S,
)
    requires
        state matches StateView::Validating { outbound, inbound, .. } && inbound is Validating
            && outbound == (OutboundView::<S>::OutboundInitiated { substream: id }),
    ensures
        ({
            let (rejected, _) = state::validation_step(
                peer,
                state,
                ValidationResult::Reject,
                opened,
            );
            &&& rejected == StateView::<S>::Closed { pending_open: Some(id) }
            &&& state::outbound_step(peer, rejected, protocol, fallback, id, substream) == (
                StateView::<S>::Closed { pending_open: None },
                seq![ActionView::CloseSubstream { substream }],
            )
        }),
{
}

/// A stream that the local node initiates opens once the remote has answered, has opened its own
/// substream and the local handshake is sent; with automatic acceptance the user is not asked.
pub proof fn law_initiated_stream_opens<S>(
    peer: PeerId,
    protocol: Seq<char>,
    fallback: Option<Seq<char>>,
    id: SubstreamId,
    outbound: S,
    inbound: S,
    answer: Vec<u8>,
    remote: Vec<u8>,
    sent: Vec<u8>,
)
    ensures
        ({
            let initiated = StateView::<S>::OutboundInitiated { substream: id };
            let (s1, a1) = state::outbound_step(
                peer,
                initiated,
                protocol,
                fallback,
                id,
                outbound,
            );
            let (s2, a2) = state::handshake_step(
                peer,
                s1,
                true,
                HandshakeEvent::OutboundNegotiated { handshake: answer, substream: outbound },
            );
            let (s3, a3) = state::inbound_step(peer, s2, protocol, fallback, inbound);
            let (s4, a4) = state::handshake_step(
                peer,
                s3,
                true,
                HandshakeEvent::InboundNegotiated { handshake: remote, substream: inbound },
            );
            let (s5, a5) = state::handshake_step(
                peer,
                s4,
                true,
                HandshakeEvent::InboundNegotiated { handshake: sent, substream: inbound },
            );
            &&& a4 == seq![
                ActionView::RemoveInbound { peer },
                ActionView::SendHandshake { peer, substream: inbound },
            ]
            &&& s5 == StateView::<S>::Open
            &&& a5 == seq![
                ActionView::RemoveInbound { peer },
                ActionView::StartConnection { peer, inbound, outbound },
                ActionView::Report(
                    EventView::NotificationStreamOpened {
                        protocol,
                        fallback,
                        peer,
                        handshake: answer@,
                    },
                ),
            ]
        }),
{
    let initiated = StateView::<S>::OutboundInitiated { substream: id };
    let (s1, a1) = state::outbound_step(peer, initiated, protocol, fallback, id, outbound);
    let (s2, a2) = state::handshake_step(
        peer,
        s1,
        true,
        HandshakeEvent::OutboundNegotiated { handshake: answer, substream: outbound },
    );
    let (s3, a3) = state::inbound_step(peer, s2, protocol, fallback, inbound);
    let (s4, a4) = state::handshake_step(
        peer,
        s3,
        true,
        HandshakeEvent::InboundNegotiated { handshake: remote, substream: inbound },
    );
    let (s5, a5) = state::handshake_step(
        peer,
        s4,
        true,
        HandshakeEvent::InboundNegotiated { handshake: sent, substream: inbound },
    );
    assert(a5 =~= seq![
        ActionView::RemoveInbound { peer },
        ActionView::StartConnection { peer, inbound, outbound },
        ActionView::Report(
            EventView::NotificationStreamOpened { protocol, fallback, peer, handshake: answer@ },
        ),
    ]);
}

/// The peer that an input is about.
pub open spec fn concerned<S>(view: ProtocolView<S>, input: ProtocolInput<S>) -> Option<PeerId> {
    match input {
        ProtocolInput::Handshake { peer, .. } => Some(peer),
        ProtocolInput::Shutdown { peer } => Some(peer),
        ProtocolInput::Transport(event) => match event {
            TransportEvent::ConnectionEstablished { peer, .. } => Some(peer),
            TransportEvent::ConnectionClosed { peer } => Some(peer),
            TransportEvent::DialFailure { peer, .. } => Some(peer),
            TransportEvent::SubstreamOpened { peer, .. } => Some(peer),
            TransportEvent::SubstreamOpenFailure { substream, .. } =>
                if view.pending_outbound.contains_key(substream) {
                    Some(view.pending_outbound[substream])
                } else {
                    None
                },
        },
        ProtocolInput::Command(command) => match command {
            super::NotificationCommand::OpenSubstream { peer } => Some(peer),
            super::NotificationCommand::CloseSubstream { peer } => Some(peer),
            super::NotificationCommand::SubstreamValidated { peer, .. } => Some(peer),
            super::NotificationCommand::SetHandshake { .. } => None,
        },
        ProtocolInput::Exhausted => None,
    }
}

/// An input changes nothing of the peers that it is not about.
pub proof fn law_other_peers_untouched<S>(
    view: ProtocolView<S>,
    input: ProtocolInput<S>,
    opened: Option<SubstreamId>,
    other: PeerId,
)
    requires
        concerned(view, input) != Some(other),
    ensures
        ({
            let (next, _) = view.on_input(input, opened);
            &&& next.peers.contains_key(other) == view.peers.contains_key(other)
            &&& view.peers.contains_key(other) ==> next.peers[other] == view.peers[other]
        }),
{
}

/// A peer is connected from the event that says so until the one that says that it is not, and no
/// other input changes that.
pub proof fn law_connected_peers<S>(
    view: ProtocolView<S>,
    input: ProtocolInput<S>,
    opened: Option<SubstreamId>,
)
    requires
        view.admits(input),
    ensures
        view.on_input(input, opened).0.peers.dom() == match input {
            ProtocolInput::Transport(TransportEvent::ConnectionEstablished { peer, .. }) =>
                view.peers.dom().insert(peer),
            ProtocolInput::Transport(TransportEvent::ConnectionClosed { peer }) =>
                view.peers.dom().remove(peer),
            _ => view.peers.dom(),
        },
{
    let after = view.on_input(input, opened).0.peers.dom();
    let expected = match input {
        ProtocolInput::Transport(TransportEvent::ConnectionEstablished { peer, .. }) =>
            view.peers.dom().insert(peer),
        ProtocolInput::Transport(TransportEvent::ConnectionClosed { peer }) =>
            view.peers.dom().remove(peer),
        _ => view.peers.dom(),
    };
    assert(after =~= expected);
}

/// Neither settings nor handshakes change but by the command that sets the handshake.
pub proof fn law_handshake_set_by_command_alone<S>(
    view: ProtocolView<S>,
    input: ProtocolInput<S>,
    opened: Option<SubstreamId>,
)
    ensures
        ({
            let (next, _) = view.on_input(input, opened);
            &&& next.auto_accept == view.auto_accept
            &&& next.handshake == match input {
                ProtocolInput::Command(
                    super::NotificationCommand::SetHandshake { handshake },
                ) => handshake@,
                _ => view.handshake,
            }
        }),
{
}

} // verus!
