//! What comes of a notification stream, from the first input to the last action.

use super::state::{Action, ActionView, HandshakeEvent, InboundState, OutboundView, StateView};
use super::types::{
    EventView, NotificationCommand, NotificationError, NotificationEvent, ValidationResult,
};
use super::{ProtocolInput, ProtocolView};
use crate::address::Multiaddr;
use crate::error::Error;
use crate::peer_id::PeerId;
use crate::protocol::{Direction, TransportEvent};
use crate::types::{ProtocolName, SubstreamId};
use vstd::prelude::*;

verus! {

/// A name by its characters, if there is one.
pub open spec fn named(name: Option<ProtocolName>) -> Option<Seq<char>> {
    match name {
        Some(name) => Some(name@),
        None => None,
    }
}

/// The view of an action tells what is done, to whom, over which substream and with which bytes.
pub proof fn law_actions_as_viewed<S>(action: Action<S>)
    ensures
        match action@ {
            ActionView::NegotiateOutbound { peer, substream } => action
                == (Action::NegotiateOutbound { peer, substream }),
            ActionView::ReadHandshake { peer, substream } => action == (Action::ReadHandshake {
                peer,
                substream,
            }),
            ActionView::SendHandshake { peer, substream } => action == (Action::SendHandshake {
                peer,
                substream,
            }),
            ActionView::RemoveOutbound { peer } => action == (Action::<S>::RemoveOutbound { peer }),
            ActionView::RemoveInbound { peer } => action == (Action::<S>::RemoveInbound { peer }),
            ActionView::SetHandshake { handshake } => action matches Action::SetHandshake {
                handshake: bytes,
            } && bytes@ == handshake,
            ActionView::CloseSubstream { substream } => action == (Action::CloseSubstream {
                substream,
            }),
            ActionView::StartConnection { peer, inbound, outbound } => action
                == (Action::StartConnection { peer, inbound, outbound }),
            ActionView::Shutdown { peer } => action == (Action::<S>::Shutdown { peer }),
            ActionView::Report(view) => action matches Action::Report(event) && event@ == view,
        },
{
}

/// The view of an event tells which event it is, of which peer, and with which names and bytes.
pub proof fn law_events_as_viewed(event: NotificationEvent)
    ensures
        match event@ {
            EventView::ValidateSubstream { protocol, fallback, peer, handshake } => event
                matches NotificationEvent::ValidateSubstream {
                protocol: name,
                fallback: other,
                peer: p,
                handshake: bytes,
            } && name@ == protocol && named(other) == fallback && p == peer && bytes@ == handshake,
            EventView::NotificationStreamOpened { protocol, fallback, peer, handshake } => event
                matches NotificationEvent::NotificationStreamOpened {
                protocol: name,
                fallback: other,
                peer: p,
                handshake: bytes,
            } && name@ == protocol && named(other) == fallback && p == peer && bytes@ == handshake,
            EventView::NotificationStreamClosed { peer } => event
                == (NotificationEvent::NotificationStreamClosed { peer }),
            EventView::NotificationStreamOpenFailure { peer, error } => event
                == (NotificationEvent::NotificationStreamOpenFailure { peer, error }),
            EventView::NotificationReceived { peer, notification } => event
                matches NotificationEvent::NotificationReceived { peer: p, notification: bytes } && p
                == peer && bytes@ == notification,
        },
{
}

/// A substream that has opened.
pub open spec fn opened<S>(
    peer: PeerId,
    protocol: ProtocolName,
    fallback: Option<ProtocolName>,
    direction: Direction,
    substream: S,
) -> ProtocolInput<S> {
    ProtocolInput::Transport(
        TransportEvent::SubstreamOpened { peer, protocol, fallback, direction, substream },
    )
}

/// A handshake has been read from the outbound substream.
pub open spec fn outbound_negotiated<S>(peer: PeerId, handshake: Vec<u8>, substream: S) -> ProtocolInput<
    S,
> {
    ProtocolInput::Handshake {
        peer,
        event: HandshakeEvent::OutboundNegotiated { handshake, substream },
    }
}

/// A handshake has been read from the inbound substream, or sent over it.
pub open spec fn inbound_negotiated<S>(peer: PeerId, handshake: Vec<u8>, substream: S) -> ProtocolInput<
    S,
> {
    ProtocolInput::Handshake {
        peer,
        event: HandshakeEvent::InboundNegotiated { handshake, substream },
    }
}

/// The user has decided on an inbound substream.
pub open spec fn verdict<S>(peer: PeerId, result: ValidationResult) -> ProtocolInput<S> {
    ProtocolInput::Command(NotificationCommand::SubstreamValidated { peer, result })
}

/// The user wants a stream to a peer.
pub open spec fn open_command<S>(peer: PeerId) -> ProtocolInput<S> {
    ProtocolInput::Command(NotificationCommand::OpenSubstream { peer })
}

/// The user learns that a stream is open, and its connection starts.
pub open spec fn stream_opens<S>(
    removed: ActionView<S>,
    peer: PeerId,
    protocol: Seq<char>,
    fallback: Option<Seq<char>>,
    handshake: Seq<u8>,
    inbound: S,
    outbound: S,
) -> Seq<ActionView<S>> {
    seq![
        removed,
        ActionView::StartConnection { peer, inbound, outbound },
        ActionView::Report(
            EventView::NotificationStreamOpened { protocol, fallback, peer, handshake },
        ),
    ]
}

/// A new connection gives a peer that has no stream.
pub proof fn law_connected_peer_has_no_stream<S>(
    view: ProtocolView<S>,
    peer: PeerId,
    address: Multiaddr,
    answer: Option<SubstreamId>,
)
    requires
        !view.peers.contains_key(peer),
    ensures
        ({
            let input = ProtocolInput::Transport(
                TransportEvent::ConnectionEstablished { peer, address },
            );
            let (after, actions) = view.on_input(input, answer);
            &&& after.peers.contains_key(peer)
            &&& after.peers[peer] == (StateView::<S>::Closed { pending_open: None })
            &&& actions.len() == 0
        }),
{
}

/// The handshake of a stream that the remote node initiates is read and put before the user as it was
/// read, together with the names that the substream was negotiated with.
pub proof fn law_inbound_stream_validated<S>(
    view: ProtocolView<S>,
    peer: PeerId,
    protocol: ProtocolName,
    fallback: Option<ProtocolName>,
    inbound: S,
    handshake: Vec<u8>,
    read: S,
)
    requires
        view.peers.contains_key(peer),
        view.peers[peer] is Closed,
    ensures
        ({
            let (reading, first) = view.on_input(
                opened(peer, protocol, fallback, Direction::Inbound, inbound),
                None,
            );
            let (validating, second) = reading.on_input(
                inbound_negotiated(peer, handshake, read),
                None,
            );
            &&& first == seq![ActionView::ReadHandshake { peer, substream: inbound }]
            &&& second == seq![
                ActionView::<S>::RemoveInbound { peer },
                ActionView::Report(
                    EventView::ValidateSubstream {
                        protocol: protocol@,
                        fallback: named(fallback),
                        peer,
                        handshake: handshake@,
                    },
                ),
            ]
            &&& validating.peers[peer] == (StateView::Validating {
                protocol: protocol@,
                fallback: named(fallback),
                outbound: OutboundView::Closed,
                inbound: InboundState::Validating { inbound: read },
            })
        }),
{
}

/// An inbound substream that the user accepts gets the local handshake, and the outbound substream
/// that was asked for is initiated; no substream is closed. One for which no outbound substream can be
/// opened is closed.
pub proof fn law_accepted_substream_gets_handshake<S>(
    view: ProtocolView<S>,
    peer: PeerId,
    protocol: Seq<char>,
    fallback: Option<Seq<char>>,
    inbound: S,
    id: SubstreamId,
)
    requires
        view.peers.contains_key(peer),
        view.peers[peer] == (StateView::Validating {
            protocol,
            fallback,
            outbound: OutboundView::Closed,
            inbound: InboundState::Validating { inbound },
        }),
    ensures
        ({
            let (accepted, actions) = view.on_input(
                verdict(peer, ValidationResult::Accept),
                Some(id),
            );
            &&& actions == seq![ActionView::SendHandshake { peer, substream: inbound }]
            &&& accepted.peers[peer] == (StateView::Validating {
                protocol,
                fallback,
                outbound: OutboundView::OutboundInitiated { substream: id },
                inbound: InboundState::<S>::SendingHandshake,
            })
        }),
        ({
            let (refused, actions) = view.on_input(verdict(peer, ValidationResult::Accept), None);
            &&& actions == seq![ActionView::CloseSubstream { substream: inbound }]
            &&& refused.peers[peer] == (StateView::<S>::Closed { pending_open: None })
        }),
{
}

/// An inbound substream that the user accepts while there is an outbound one gets the local handshake,
/// and the outbound one stays as it is.
pub proof fn law_accepted_beside_outbound<S>(
    view: ProtocolView<S>,
    peer: PeerId,
    protocol: Seq<char>,
    fallback: Option<Seq<char>>,
    outbound: OutboundView<S>,
    inbound: S,
    answer: Option<SubstreamId>,
)
    requires
        view.peers.contains_key(peer),
        !(outbound is Closed),
        view.peers[peer] == (StateView::Validating {
            protocol,
            fallback,
            outbound,
            inbound: InboundState::Validating { inbound },
        }),
    ensures
        ({
            let (accepted, actions) = view.on_input(
                verdict(peer, ValidationResult::Accept),
                answer,
            );
            &&& actions == seq![ActionView::SendHandshake { peer, substream: inbound }]
            &&& accepted.peers[peer] == (StateView::Validating {
                protocol,
                fallback,
                outbound,
                inbound: InboundState::<S>::SendingHandshake,
            })
        }),
{
}

/// An inbound substream that the user rejects is closed, the negotiations of the peer are given up,
/// and an outbound substream that has not opened yet is kept in mind.
pub proof fn law_rejected_substream_closed<S>(
    view: ProtocolView<S>,
    peer: PeerId,
    protocol: Seq<char>,
    fallback: Option<Seq<char>>,
    outbound: OutboundView<S>,
    inbound: S,
    answer: Option<SubstreamId>,
)
    requires
        view.peers.contains_key(peer),
        view.peers[peer] == (StateView::Validating {
            protocol,
            fallback,
            outbound,
            inbound: InboundState::Validating { inbound },
        }),
    ensures
        ({
            let (rejected, actions) = view.on_input(
                verdict(peer, ValidationResult::Reject),
                answer,
            );
            &&& actions == seq![
                ActionView::CloseSubstream { substream: inbound },
                ActionView::RemoveOutbound { peer },
                ActionView::RemoveInbound { peer },
            ]
            &&& rejected.peers[peer] == (StateView::<S>::Closed {
                pending_open: match outbound {
                    OutboundView::OutboundInitiated { substream } => Some(substream),
                    _ => None,
                },
            })
        }),
{
}

/// A decision of the user on a peer whose substream is not under validation changes nothing.
pub proof fn law_verdict_needs_validation<S>(
    view: ProtocolView<S>,
    peer: PeerId,
    result: ValidationResult,
    answer: Option<SubstreamId>,
)
    requires
        view.peers.contains_key(peer) ==> !(view.peers[peer] matches StateView::Validating {
            inbound,
            ..
        } && inbound is Validating),
    ensures
        ({
            let (after, actions) = view.on_input(verdict(peer, result), answer);
            &&& after.peers =~= view.peers
            &&& actions.len() == 0
        }),
{
}

/// A stream that the remote node initiates and the user accepts ends up open: whichever of the two
/// substreams is the last to be ready, the connection starts with both, and the user is given the
/// handshake that the remote node answered with.
pub proof fn law_accepted_stream_opens<S>(
    view: ProtocolView<S>,
    peer: PeerId,
    protocol: ProtocolName,
    fallback: Option<ProtocolName>,
    inbound: S,
    handshake: Vec<u8>,
    read: S,
    id: SubstreamId,
    other_protocol: ProtocolName,
    other_fallback: Option<ProtocolName>,
    outbound: S,
    sent: Vec<u8>,
    ready: S,
    answer: Vec<u8>,
    negotiated: S,
)
    requires
        view.peers.contains_key(peer),
        view.peers[peer] is Closed,
    ensures
        ({
            let (reading, _) = view.on_input(
                opened(peer, protocol, fallback, Direction::Inbound, inbound),
                None,
            );
            let (validating, _) = reading.on_input(inbound_negotiated(peer, handshake, read), None);
            let (accepted, _) = validating.on_input(
                verdict(peer, ValidationResult::Accept),
                Some(id),
            );
            let (negotiating, asked) = accepted.on_input(
                opened(
                    peer,
                    other_protocol,
                    other_fallback,
                    Direction::Outbound(id),
                    outbound,
                ),
                None,
            );
            let (half, first) = negotiating.on_input(inbound_negotiated(peer, sent, ready), None);
            let (open, second) = half.on_input(outbound_negotiated(peer, answer, negotiated), None);
            let (half2, first2) = negotiating.on_input(
                outbound_negotiated(peer, answer, negotiated),
                None,
            );
            let (open2, second2) = half2.on_input(inbound_negotiated(peer, sent, ready), None);
            &&& asked == seq![ActionView::NegotiateOutbound { peer, substream: outbound }]
            &&& first == seq![ActionView::<S>::RemoveInbound { peer }]
            &&& second == stream_opens(
                ActionView::RemoveOutbound { peer },
                peer,
                protocol@,
                named(fallback),
                answer@,
                ready,
                negotiated,
            )
            &&& open.peers[peer] is Open
            &&& first2 == seq![ActionView::<S>::RemoveOutbound { peer }]
            &&& second2 == stream_opens(
                ActionView::RemoveInbound { peer },
                peer,
                protocol@,
                named(fallback),
                answer@,
                ready,
                negotiated,
            )
            &&& open2.peers[peer] is Open
        }),
{
    let (reading, _) = view.on_input(
        opened(peer, protocol, fallback, Direction::Inbound, inbound),
        None,
    );
    let (validating, _) = reading.on_input(inbound_negotiated(peer, handshake, read), None);
    let (accepted, _) = validating.on_input(verdict(peer, ValidationResult::Accept), Some(id));
    let (negotiating, _) = accepted.on_input(
        opened(peer, other_protocol, other_fallback, Direction::Outbound(id), outbound),
        None,
    );
    let (half, first) = negotiating.on_input(inbound_negotiated(peer, sent, ready), None);
    let (_, second) = half.on_input(outbound_negotiated(peer, answer, negotiated), None);
    let (half2, first2) = negotiating.on_input(outbound_negotiated(peer, answer, negotiated), None);
    let (_, second2) = half2.on_input(inbound_negotiated(peer, sent, ready), None);
    assert(first =~= seq![ActionView::<S>::RemoveInbound { peer }]);
    assert(first2 =~= seq![ActionView::<S>::RemoveOutbound { peer }]);
    assert(second =~= stream_opens(
        ActionView::RemoveOutbound { peer },
        peer,
        protocol@,
        named(fallback),
        answer@,
        ready,
        negotiated,
    ));
    assert(second2 =~= stream_opens(
        ActionView::RemoveInbound { peer },
        peer,
        protocol@,
        named(fallback),
        answer@,
        ready,
        negotiated,
    ));
}

/// A stream that the user asks for is initiated over the substream that the transport opens: the local
/// handshake goes out over it and the remote one is awaited. The substream that the remote node opens
/// in return is read, put before the user unless such substreams are accepted by themselves, and with
/// both substreams ready the stream is open.
pub proof fn law_requested_stream_opens<S>(
    view: ProtocolView<S>,
    peer: PeerId,
    id: SubstreamId,
    protocol: ProtocolName,
    fallback: Option<ProtocolName>,
    outbound: S,
    answer: Vec<u8>,
    negotiated: S,
    other_protocol: ProtocolName,
    other_fallback: Option<ProtocolName>,
    inbound: S,
    handshake: Vec<u8>,
    read: S,
    sent: Vec<u8>,
    ready: S,
)
    requires
        view.peers.contains_key(peer),
        view.peers[peer] is Closed,
    ensures
        ({
            let (initiated, none) = view.on_input(open_command(peer), Some(id));
            let (negotiating, asked) = initiated.on_input(
                opened(peer, protocol, fallback, Direction::Outbound(id), outbound),
                None,
            );
            let (half, first) = negotiating.on_input(
                outbound_negotiated(peer, answer, negotiated),
                None,
            );
            let (reading, second) = half.on_input(
                opened(peer, other_protocol, other_fallback, Direction::Inbound, inbound),
                None,
            );
            let (decided, third) = reading.on_input(
                inbound_negotiated(peer, handshake, read),
                None,
            );
            let (accepted, fourth) = if view.auto_accept {
                (decided, third)
            } else {
                decided.on_input(verdict(peer, ValidationResult::Accept), None)
            };
            let (open, last) = accepted.on_input(inbound_negotiated(peer, sent, ready), None);
            &&& none.len() == 0
            &&& initiated.peers[peer] == (StateView::<S>::OutboundInitiated { substream: id })
            &&& initiated.pending_outbound[id] == peer
            &&& !negotiating.pending_outbound.contains_key(id)
            &&& asked == seq![ActionView::NegotiateOutbound { peer, substream: outbound }]
            &&& first == seq![ActionView::<S>::RemoveOutbound { peer }]
            &&& second == seq![ActionView::ReadHandshake { peer, substream: inbound }]
            &&& third == seq![
                ActionView::<S>::RemoveInbound { peer },
                if view.auto_accept {
                    ActionView::SendHandshake { peer, substream: read }
                } else {
                    ActionView::Report(
                        EventView::ValidateSubstream {
                            protocol: protocol@,
                            fallback: named(fallback),
                            peer,
                            handshake: handshake@,
                        },
                    )
                },
            ]
            &&& !view.auto_accept ==> fourth == seq![
                ActionView::SendHandshake { peer, substream: read },
            ]
            &&& last == stream_opens(
                ActionView::RemoveInbound { peer },
                peer,
                protocol@,
                named(fallback),
                answer@,
                ready,
                negotiated,
            )
            &&& open.peers[peer] is Open
        }),
{
    let (initiated, none) = view.on_input(open_command(peer), Some(id));
    let (negotiating, asked) = initiated.on_input(
        opened(peer, protocol, fallback, Direction::Outbound(id), outbound),
        None,
    );
    let (half, first) = negotiating.on_input(outbound_negotiated(peer, answer, negotiated), None);
    assert(first =~= seq![ActionView::<S>::RemoveOutbound { peer }]);
    let (reading, second) = half.on_input(
        opened(peer, other_protocol, other_fallback, Direction::Inbound, inbound),
        None,
    );
    let (decided, third) = reading.on_input(inbound_negotiated(peer, handshake, read), None);
    let accepted = if view.auto_accept {
        decided
    } else {
        decided.on_input(verdict(peer, ValidationResult::Accept), None).0
    };
    let (_, last) = accepted.on_input(inbound_negotiated(peer, sent, ready), None);
    assert(last =~= stream_opens(
        ActionView::RemoveInbound { peer },
        peer,
        protocol@,
        named(fallback),
        answer@,
        ready,
        negotiated,
    ));
}

/// A stream that cannot be initiated is reported: there is no connection to the peer, or the transport
/// opens no substream to it.
pub proof fn law_refused_stream_reported<S>(
    view: ProtocolView<S>,
    peer: PeerId,
    answer: Option<SubstreamId>,
)
    requires
        view.peers.contains_key(peer) ==> view.peers[peer] is Closed && answer is None,
    ensures
        ({
            let (after, actions) = view.on_input(open_command(peer), answer);
            &&& actions == seq![
                ActionView::<S>::Report(
                    EventView::NotificationStreamOpenFailure {
                        peer,
                        error: NotificationError::NoConnection,
                    },
                ),
            ]
            &&& after.peers.contains_key(peer) == view.peers.contains_key(peer)
            &&& view.peers.contains_key(peer) ==> after.peers[peer] is Closed
            &&& after.pending_outbound == view.pending_outbound
        }),
{
}

/// A stream that the user asked for and whose substream fails to open is reported as rejected, and the
/// peer has no stream.
pub proof fn law_unopened_stream_reported<S>(
    view: ProtocolView<S>,
    peer: PeerId,
    id: SubstreamId,
    error: Error,
)
    requires
        view.peers.contains_key(peer),
        view.peers[peer] is Closed,
    ensures
        ({
            let (initiated, _) = view.on_input(open_command(peer), Some(id));
            let (failed, actions) = initiated.on_input(
                ProtocolInput::Transport(
                    TransportEvent::SubstreamOpenFailure { substream: id, error },
                ),
                None,
            );
            &&& actions == seq![
                ActionView::<S>::Report(
                    EventView::NotificationStreamOpenFailure {
                        peer,
                        error: NotificationError::Rejected,
                    },
                ),
            ]
            &&& failed.peers[peer] == (StateView::<S>::Closed { pending_open: None })
            &&& !failed.pending_outbound.contains_key(id)
        }),
{
}

/// An open stream ends by the command of the user, by the end of its connection handler, or by the end
/// of the connection. Each time the user learns that it is closed; where the handler runs on, it is
/// shut down.
pub proof fn law_open_stream_ends<S>(
    view: ProtocolView<S>,
    peer: PeerId,
    answer: Option<SubstreamId>,
)
    requires
        view.peers.contains_key(peer),
        view.peers[peer] is Open,
    ensures
        ({
            let closed = ActionView::<S>::Report(EventView::NotificationStreamClosed { peer });
            let shutdown = ActionView::<S>::Shutdown { peer };
            let (by_user, first) = view.on_input(
                ProtocolInput::Command(NotificationCommand::CloseSubstream { peer }),
                answer,
            );
            let (by_handler, second) = view.on_input(ProtocolInput::Shutdown { peer }, answer);
            let (disconnected, third) = view.on_input(
                ProtocolInput::Transport(TransportEvent::ConnectionClosed { peer }),
                answer,
            );
            &&& first == seq![shutdown, closed]
            &&& by_user.peers[peer] == (StateView::<S>::Closed { pending_open: None })
            &&& second == seq![closed]
            &&& by_handler.peers[peer] == (StateView::<S>::Closed { pending_open: None })
            &&& third == seq![
                ActionView::<S>::RemoveOutbound { peer },
                ActionView::<S>::RemoveInbound { peer },
                shutdown,
                closed,
            ]
            &&& !disconnected.peers.contains_key(peer)
        }),
{
    let (_, third) = view.on_input(
        ProtocolInput::Transport(TransportEvent::ConnectionClosed { peer }),
        answer,
    );
    assert(third =~= seq![
        ActionView::<S>::RemoveOutbound { peer },
        ActionView::<S>::RemoveInbound { peer },
        ActionView::<S>::Shutdown { peer },
        ActionView::<S>::Report(EventView::NotificationStreamClosed { peer }),
    ]);
}

/// A handshake that the user sets is used from then on, and nothing else changes.
pub proof fn law_handshake_set<S>(
    view: ProtocolView<S>,
    handshake: Vec<u8>,
    answer: Option<SubstreamId>,
)
    ensures
        ({
            let (after, actions) = view.on_input(
                ProtocolInput::Command(NotificationCommand::SetHandshake { handshake }),
                answer,
            );
            &&& after.handshake == handshake@
            &&& after.peers == view.peers
            &&& after.pending_outbound == view.pending_outbound
            &&& actions == seq![ActionView::<S>::SetHandshake { handshake: handshake@ }]
        }),
{
}

/// Every action has its cause: a substream is used, or closed, because it has come in or because of the
/// verdict of the user; a connection starts because both substreams of its peer are ready.
pub proof fn law_actions_have_their_cause<S>(
    view: ProtocolView<S>,
    input: ProtocolInput<S>,
    answer: Option<SubstreamId>,
    i: int,
)
    requires
        view.admits(input),
        0 <= i < view.on_input(input, answer).1.len(),
    ensures
        match view.on_input(input, answer).1[i] {
            ActionView::NegotiateOutbound { peer, substream } => input
                matches ProtocolInput::Transport(
                TransportEvent::SubstreamOpened { peer: p, direction, substream: s, .. },
            ) && p == peer && s == substream && direction is Outbound,
            ActionView::ReadHandshake { peer, substream } => input matches ProtocolInput::Transport(
                TransportEvent::SubstreamOpened { peer: p, direction, substream: s, .. },
            ) && p == peer && s == substream && direction is Inbound,
            ActionView::SendHandshake { peer, substream } => match input {
                ProtocolInput::Command(
                    NotificationCommand::SubstreamValidated { peer: p, result },
                ) => p == peer && result is Accept && (view.peers[peer]
                    matches StateView::Validating { inbound, .. } && inbound
                    == (InboundState::Validating { inbound: substream })),
                ProtocolInput::Handshake {
                    peer: p,
                    event: HandshakeEvent::InboundNegotiated { substream: s, .. },
                } => p == peer && s == substream && view.auto_accept,
                _ => false,
            },
            ActionView::CloseSubstream { substream } => match input {
                ProtocolInput::Transport(TransportEvent::SubstreamOpened { substream: s, .. }) => s
                    == substream,
                ProtocolInput::Command(
                    NotificationCommand::SubstreamValidated { peer, result },
                ) => (result is Reject || answer is None) && (view.peers[peer]
                    matches StateView::Validating { inbound, .. } && inbound
                    == (InboundState::Validating { inbound: substream })),
                _ => false,
            },
            ActionView::StartConnection { peer, .. } => input matches ProtocolInput::Handshake {
                peer: p,
                event,
            } && p == peer && !(event is NegotiationError),
            ActionView::SetHandshake { .. } => input matches ProtocolInput::Command(command)
                && command is SetHandshake,
            ActionView::Shutdown { peer } => view.peers.contains_key(peer) && view.peers[peer] is Open,
            ActionView::Report(EventView::ValidateSubstream { peer, handshake, .. }) => input
                matches ProtocolInput::Handshake {
                peer: p,
                event: HandshakeEvent::InboundNegotiated { handshake: bytes, .. },
            } && p == peer && bytes@ == handshake,
            ActionView::Report(EventView::NotificationStreamOpened { peer, .. }) => input
                matches ProtocolInput::Handshake { peer: p, event } && p == peer && !(
            event is NegotiationError),
            ActionView::Report(EventView::NotificationReceived { .. }) => false,
            _ => true,
        },
{
}

/// A command to open a stream to a peer that has one, or is about to, spoils the state of the peer:
/// nothing is asked of the transport or told to the user, and a stream that is open is shut down.
pub proof fn law_second_open_command_spoils<S>(
    view: ProtocolView<S>,
    peer: PeerId,
    id: Option<SubstreamId>,
)
    requires
        view.peers.contains_key(peer),
        !(view.peers[peer] is Closed),
    ensures
        ({
            let (after, actions) = view.on_input(open_command(peer), id);
            &&& after.peers == view.peers.insert(peer, StateView::<S>::Poisoned)
            &&& after.pending_outbound == view.pending_outbound
            &&& actions =~= if view.peers[peer] is Open {
                seq![ActionView::<S>::Shutdown { peer }]
            } else {
                Seq::empty()
            }
        }),
{
}

/// A peer whose state is spoilt stays so until its connection is gone: its substreams are closed,
/// its handshakes are dropped, and the user hears nothing of it.
pub proof fn law_spoilt_peer<S>(
    view: ProtocolView<S>,
    peer: PeerId,
    protocol: ProtocolName,
    fallback: Option<ProtocolName>,
    id: SubstreamId,
    substream: S,
    handshake: Vec<u8>,
    result: ValidationResult,
)
    requires
        view.peers.contains_key(peer),
        view.peers[peer] is Poisoned,
    ensures
        ({
            let (after, actions) = view.on_input(
                opened(peer, protocol, fallback, Direction::Inbound, substream),
                None,
            );
            after.peers[peer] is Poisoned && actions == seq![
                ActionView::CloseSubstream { substream },
            ]
        }),
        ({
            let (after, actions) = view.on_input(
                opened(peer, protocol, fallback, Direction::Outbound(id), substream),
                None,
            );
            after.peers[peer] is Poisoned && actions == seq![
                ActionView::CloseSubstream { substream },
            ] && !after.pending_outbound.contains_key(id)
        }),
        ({
            let (after, actions) = view.on_input(
                outbound_negotiated(peer, handshake, substream),
                None,
            );
            after.peers[peer] is Poisoned && actions =~= seq![
                ActionView::<S>::RemoveOutbound { peer },
            ]
        }),
        ({
            let (after, actions) = view.on_input(
                inbound_negotiated(peer, handshake, substream),
                None,
            );
            after.peers[peer] is Poisoned && actions =~= seq![
                ActionView::<S>::RemoveInbound { peer },
            ]
        }),
        ({
            let (after, actions) = view.on_input(verdict(peer, result), None);
            after.peers[peer] is Poisoned && actions.len() == 0
        }),
        ({
            let (after, actions) = view.on_input(
                ProtocolInput::Transport(TransportEvent::ConnectionClosed { peer }),
                None,
            );
            !after.peers.contains_key(peer) && actions =~= seq![
                ActionView::<S>::RemoveOutbound { peer },
                ActionView::<S>::RemoveInbound { peer },
            ]
        }),
{
}

/// An outbound substream that opens while the handshake of an inbound one is still being looked at,
/// and that nobody has asked for, is closed, and the state of the peer is spoilt.
pub proof fn law_unasked_substream_closed<S>(
    view: ProtocolView<S>,
    peer: PeerId,
    protocol: ProtocolName,
    fallback: Option<ProtocolName>,
    id: SubstreamId,
    substream: S,
)
    requires
        view.peers.contains_key(peer),
        view.peers[peer] matches StateView::Validating { outbound, inbound, .. } && !(inbound
            is SendingHandshake) && !(inbound is Open) && !(outbound is OutboundInitiated),
    ensures
        ({
            let (after, actions) = view.on_input(
                opened(peer, protocol, fallback, Direction::Outbound(id), substream),
                None,
            );
            &&& actions == seq![ActionView::CloseSubstream { substream }]
            &&& after.peers[peer] is Poisoned
        }),
{
}

/// Where the substream of an accepted stream fails to open, the handshakes with the peer are given
/// up and the user is told.
pub proof fn law_unopened_accepted_stream_reported<S>(
    view: ProtocolView<S>,
    peer: PeerId,
    id: SubstreamId,
    error: Error,
)
    requires
        view.pending_outbound.contains_key(id) && view.pending_outbound[id] == peer,
        view.peers.contains_key(peer),
        view.peers[peer] is Validating,
    ensures
        ({
            let (after, actions) = view.on_input(
                ProtocolInput::Transport(
                    TransportEvent::SubstreamOpenFailure { substream: id, error },
                ),
                None,
            );
            let removed = seq![
                ActionView::<S>::RemoveInbound { peer },
                ActionView::<S>::RemoveOutbound { peer },
            ];
            let failure = ActionView::<S>::Report(
                EventView::NotificationStreamOpenFailure {
                    peer,
                    error: NotificationError::Rejected,
                },
            );
            &&& !after.pending_outbound.contains_key(id)
            &&& if view.peers[peer]->Validating_outbound is Closed {
                actions =~= removed
            } else {
                actions =~= removed.push(failure)
            }
        }),
{
}

} // verus!
