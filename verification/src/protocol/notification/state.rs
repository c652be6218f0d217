//! The state that the notification protocol keeps of a peer, and how events change it.

use super::types::{EventView, NotificationError, NotificationEvent, ValidationResult};
use crate::peer_id::PeerId;
use crate::types;
use crate::types::{ProtocolName, SubstreamId};
use vstd::prelude::*;

verus! {

/// Inbound substream state.
#[derive(Debug, PartialEq, Eq)]
pub enum InboundState<S> {
    /// Substream is closed.
    Closed,
    /// Handshake is being read from the remote node.
    ReadingHandshake,
    /// Substream and its handshake are being validated by the user protocol.
    Validating {
        /// Inbound substream.
        inbound: S,
    },
    /// Handshake is being sent to the remote node.
    SendingHandshake,
    /// Substream is open.
    Open {
        /// Inbound substream.
        inbound: S,
    },
}

/// Outbound substream state.
#[derive(Debug, PartialEq, Eq)]
pub enum OutboundState<S> {
    /// Substream is closed.
    Closed,
    /// Outbound substream initiated.
    OutboundInitiated {
        /// Substream ID.
        substream: SubstreamId,
    },
    /// Substream is in the state of being negotiated.
    ///
    /// This process entails sending local node's handshake and reading back the remote node's
    /// handshake if they've accepted the substream or detecting that the substream was closed
    /// in case the substream was rejected.
    Negotiating,
    /// Substream is open.
    Open {
        /// Received handshake.
        handshake: Vec<u8>,
        /// Outbound substream.
        outbound: S,
    },
}

/// Outbound substream state, with the handshake by its view.
pub enum OutboundView<S> {
    /// Substream is closed.
    Closed,
    /// Outbound substream initiated.
    OutboundInitiated {
        /// Substream ID.
        substream: SubstreamId,
    },
    /// Substream is in the state of being negotiated.
    Negotiating,
    /// Substream is open.
    Open {
        /// Received handshake.
        handshake: Seq<u8>,
        /// Outbound substream.
        outbound: S,
    },
}

impl<S> View for OutboundState<S> {
    type V = OutboundView<S>;

    open spec fn view(&self) -> OutboundView<S> {
        match *self {
            OutboundState::Closed => OutboundView::Closed,
            OutboundState::OutboundInitiated { substream } => OutboundView::OutboundInitiated {
                substream,
            },
            OutboundState::Negotiating => OutboundView::Negotiating,
            OutboundState::Open { handshake, outbound } => OutboundView::Open {
                handshake: handshake@,
                outbound,
            },
        }
    }
}

impl<S> OutboundView<S> {
    /// The outbound substream that has been initiated and has not opened yet.
    pub open spec fn pending_open(self) -> Option<SubstreamId> {
        match self {
            OutboundView::OutboundInitiated { substream } => Some(substream),
            _ => None,
        }
    }
}

impl<S> OutboundState<S> {
    /// Get pending outbound substream ID, if it exists.
    pub fn pending_open(&self) -> (r: Option<SubstreamId>)
        ensures
            r == self@.pending_open(),
    {
        match self {
            OutboundState::OutboundInitiated { substream } => Some(*substream),
            _ => None,
        }
    }

    /// Whether there is no outbound substream.
    pub fn is_closed(&self) -> (r: bool)
        ensures
            r == (self@ is Closed),
    {
        match self {
            OutboundState::Closed => true,
            _ => false,
        }
    }
}

/// Peer state.
#[derive(Debug, PartialEq, Eq)]
pub enum PeerState<S> {
    /// Peer state is poisoned due to invalid state transition.
    Poisoned,
    /// Connection to peer is closed.
    Closed {
        /// Connection might have been closed while there was an outbound substream still pending.
        ///
        /// To handle this state transition correctly in case the substream opens after the
        /// connection is considered closed, store the `SubstreamId` so that it can be verified in
        /// case the substream ever opens.
        pending_open: Option<SubstreamId>,
    },
    /// Outbound substream initiated.
    OutboundInitiated {
        /// Substream ID.
        substream: SubstreamId,
    },
    /// Substream is being validated.
    Validating {
        /// Protocol.
        protocol: ProtocolName,
        /// Fallback protocol, if the substream was negotiated using a fallback name.
        fallback: Option<ProtocolName>,
        /// Outbound protocol state.
        outbound: OutboundState<S>,
        /// Inbound protocol state.
        inbound: InboundState<S>,
    },
    /// Notification stream has been opened.
    Open,
}

/// Peer state, with names and bytes by their views.
pub enum StateView<S> {
    /// Peer state is poisoned due to invalid state transition.
    Poisoned,
    /// Connection to peer is closed.
    Closed {
        /// Outbound substream that is still pending.
        pending_open: Option<SubstreamId>,
    },
    /// Outbound substream initiated.
    OutboundInitiated {
        /// Substream ID.
        substream: SubstreamId,
    },
    /// Substream is being validated.
    Validating {
        /// Protocol.
        protocol: Seq<char>,
        /// Fallback protocol.
        fallback: Option<Seq<char>>,
        /// Outbound protocol state.
        outbound: OutboundView<S>,
        /// Inbound protocol state.
        inbound: InboundState<S>,
    },
    /// Notification stream has been opened.
    Open,
}

impl<S> View for PeerState<S> {
    type V = StateView<S>;

    open spec fn view(&self) -> StateView<S> {
        match *self {
            PeerState::Poisoned => StateView::Poisoned,
            PeerState::Closed { pending_open } => StateView::Closed { pending_open },
            PeerState::OutboundInitiated { substream } => StateView::OutboundInitiated {
                substream,
            },
            PeerState::Validating { protocol, fallback, outbound, inbound } =>
                StateView::Validating {
                    protocol: protocol@,
                    fallback: types::fallback_view(fallback),
                    outbound: outbound@,
                    inbound,
                },
            PeerState::Open => StateView::Open,
        }
    }
}

/// What is to be done for a peer: calls of the handshake service, events for the user, and
/// operations on substreams.
#[derive(Debug, PartialEq, Eq)]
pub enum Action<S> {
    /// Send the local handshake over an outbound substream and read the remote one.
    NegotiateOutbound {
        /// Peer ID.
        peer: PeerId,
        /// Outbound substream.
        substream: S,
    },
    /// Read the remote handshake from an inbound substream.
    ReadHandshake {
        /// Peer ID.
        peer: PeerId,
        /// Inbound substream.
        substream: S,
    },
    /// Send the local handshake over an inbound substream.
    SendHandshake {
        /// Peer ID.
        peer: PeerId,
        /// Inbound substream.
        substream: S,
    },
    /// Forget the outbound negotiation of the peer.
    RemoveOutbound {
        /// Peer ID.
        peer: PeerId,
    },
    /// Forget the inbound negotiation of the peer.
    RemoveInbound {
        /// Peer ID.
        peer: PeerId,
    },
    /// Use another local handshake from now on.
    SetHandshake {
        /// Handshake.
        handshake: Vec<u8>,
    },
    /// Close a substream.
    CloseSubstream {
        /// Substream.
        substream: S,
    },
    /// Start the connection handler of the peer.
    StartConnection {
        /// Peer ID.
        peer: PeerId,
        /// Inbound substream.
        inbound: S,
        /// Outbound substream.
        outbound: S,
    },
    /// Shut the connection handler of the peer down.
    Shutdown {
        /// Peer ID.
        peer: PeerId,
    },
    /// Report an event to the user.
    Report(NotificationEvent),
}

/// What is to be done for a peer, with names and bytes by their views.
pub enum ActionView<S> {
    /// Send the local handshake over an outbound substream and read the remote one.
    NegotiateOutbound {
        /// Peer ID.
        peer: PeerId,
        /// Outbound substream.
        substream: S,
    },
    /// Read the remote handshake from an inbound substream.
    ReadHandshake {
        /// Peer ID.
        peer: PeerId,
        /// Inbound substream.
        substream: S,
    },
    /// Send the local handshake over an inbound substream.
    SendHandshake {
        /// Peer ID.
        peer: PeerId,
        /// Inbound substream.
        substream: S,
    },
    /// Forget the outbound negotiation of the peer.
    RemoveOutbound {
        /// Peer ID.
        peer: PeerId,
    },
    /// Forget the inbound negotiation of the peer.
    RemoveInbound {
        /// Peer ID.
        peer: PeerId,
    },
    /// Use another local handshake from now on.
    SetHandshake {
        /// Handshake.
        handshake: Seq<u8>,
    },
    /// Close a substream.
    CloseSubstream {
        /// Substream.
        substream: S,
    },
    /// Start the connection handler of the peer.
    StartConnection {
        /// Peer ID.
        peer: PeerId,
        /// Inbound substream.
        inbound: S,
        /// Outbound substream.
        outbound: S,
    },
    /// Shut the connection handler of the peer down.
    Shutdown {
        /// Peer ID.
        peer: PeerId,
    },
    /// Report an event to the user.
    Report(EventView),
}

impl<S> View for Action<S> {
    type V = ActionView<S>;

    open spec fn view(&self) -> ActionView<S> {
        match *self {
            Action::NegotiateOutbound { peer, substream } => ActionView::NegotiateOutbound {
                peer,
                substream,
            },
            Action::ReadHandshake { peer, substream } => ActionView::ReadHandshake {
                peer,
                substream,
            },
            Action::SendHandshake { peer, substream } => ActionView::SendHandshake {
                peer,
                substream,
            },
            Action::RemoveOutbound { peer } => ActionView::RemoveOutbound { peer },
            Action::RemoveInbound { peer } => ActionView::RemoveInbound { peer },
            Action::SetHandshake { handshake } => ActionView::SetHandshake {
                handshake: handshake@,
            },
            Action::CloseSubstream { substream } => ActionView::CloseSubstream { substream },
            Action::StartConnection { peer, inbound, outbound } => ActionView::StartConnection {
                peer,
                inbound,
                outbound,
            },
            Action::Shutdown { peer } => ActionView::Shutdown { peer },
            Action::Report(event) => ActionView::Report(event@),
        }
    }
}

/// The views of a list of actions.
pub open spec fn action_views<S>(actions: Seq<Action<S>>) -> Seq<ActionView<S>> {
    Seq::new(actions.len(), |i: int| actions[i]@)
}

/// An event of the handshake service.
#[derive(Debug, PartialEq, Eq)]
pub enum HandshakeEvent<S> {
    /// The remote handshake has been read from the outbound substream.
    OutboundNegotiated {
        /// Remote handshake.
        handshake: Vec<u8>,
        /// Outbound substream.
        substream: S,
    },
    /// A handshake has been read from the inbound substream, or sent over it.
    InboundNegotiated {
        /// Remote handshake.
        handshake: Vec<u8>,
        /// Inbound substream.
        substream: S,
    },
    /// The negotiation failed.
    NegotiationError,
}

/// The report that the notification stream could not be opened.
pub open spec fn open_failure<S>(peer: PeerId, error: NotificationError) -> ActionView<S> {
    ActionView::Report(EventView::NotificationStreamOpenFailure { peer, error })
}

/// The report that the notification stream is closed.
pub open spec fn stream_closed<S>(peer: PeerId) -> ActionView<S> {
    ActionView::Report(EventView::NotificationStreamClosed { peer })
}

/// Where both substreams are open, the connection handler starts and the user learns that the
/// notification stream is open.
pub open spec fn open_if_ready<S>(peer: PeerId, state: StateView<S>) -> (
    StateView<S>,
    Seq<ActionView<S>>,
) {
    match state {
        StateView::Validating {
            protocol,
            fallback,
            outbound: OutboundView::Open { handshake, outbound },
            inbound: InboundState::Open { inbound },
        } => (
            StateView::Open,
            seq![
                ActionView::StartConnection { peer, inbound, outbound },
                ActionView::Report(
                    EventView::NotificationStreamOpened { protocol, fallback, peer, handshake },
                ),
            ],
        ),
        _ => (state, Seq::empty()),
    }
}

/// What a command to open a substream does where the peer is not `Closed`: a connection handler that
/// is running ends.
pub open spec fn poison_actions<S>(peer: PeerId, state: StateView<S>) -> Seq<ActionView<S>> {
    if state is Open {
        seq![ActionView::Shutdown { peer }]
    } else {
        Seq::empty()
    }
}

/// What an event of the handshake service does to a peer.
pub open spec fn handshake_step<S>(
    peer: PeerId,
    state: StateView<S>,
    auto_accept: bool,
    event: HandshakeEvent<S>,
) -> (StateView<S>, Seq<ActionView<S>>) {
    match event {
        // the remote handshake is here, which opens the outbound substream
        HandshakeEvent::OutboundNegotiated { handshake, substream } => if state is Open {
            (
                StateView::Poisoned,
                seq![ActionView::RemoveOutbound { peer }, ActionView::Shutdown { peer }],
            )
        } else {
            let next = match state {
                StateView::Validating {
                    protocol,
                    fallback,
                    outbound: OutboundView::Negotiating,
                    inbound,
                } => StateView::Validating {
                    protocol,
                    fallback,
                    outbound: OutboundView::Open { handshake: handshake@, outbound: substream },
                    inbound,
                },
                _ => StateView::Poisoned,
            };
            let (last, opened) = open_if_ready(peer, next);
            (last, seq![ActionView::RemoveOutbound { peer }] + opened)
        },
        // either the remote handshake has been read, and the user or the configuration decides,
        // or the local handshake has been sent, which opens the inbound substream
        HandshakeEvent::InboundNegotiated { handshake, substream } => match state {
            StateView::Validating {
                protocol,
                fallback,
                outbound,
                inbound: InboundState::ReadingHandshake,
            } => if !(outbound is Closed) && auto_accept {
                (
                    StateView::Validating {
                        protocol,
                        fallback,
                        outbound,
                        inbound: InboundState::SendingHandshake,
                    },
                    seq![
                        ActionView::RemoveInbound { peer },
                        ActionView::SendHandshake { peer, substream },
                    ],
                )
            } else {
                (
                    StateView::Validating {
                        protocol,
                        fallback,
                        outbound,
                        inbound: InboundState::Validating { inbound: substream },
                    },
                    seq![
                        ActionView::RemoveInbound { peer },
                        ActionView::Report(
                            EventView::ValidateSubstream {
                                protocol,
                                fallback,
                                peer,
                                handshake: handshake@,
                            },
                        ),
                    ],
                )
            },
            StateView::Validating {
                protocol,
                fallback,
                outbound,
                inbound: InboundState::SendingHandshake,
            } => {
                let (last, opened) = open_if_ready(
                    peer,
                    StateView::Validating {
                        protocol,
                        fallback,
                        outbound,
                        inbound: InboundState::Open { inbound: substream },
                    },
                );
                (last, seq![ActionView::RemoveInbound { peer }] + opened)
            },
            StateView::Open => (
                StateView::Poisoned,
                seq![ActionView::RemoveInbound { peer }, ActionView::Shutdown { peer }],
            ),
            _ => (StateView::Poisoned, seq![ActionView::RemoveInbound { peer }]),
        },
        // the user learns of the failure if there is an outbound substream
        HandshakeEvent::NegotiationError => {
            let removed = seq![
                ActionView::RemoveOutbound { peer },
                ActionView::RemoveInbound { peer },
            ];
            match state {
                StateView::Validating { outbound, .. } => (
                    StateView::Closed { pending_open: outbound.pending_open() },
                    if outbound is Closed {
                        removed
                    } else {
                        removed.push(open_failure(peer, NotificationError::Rejected))
                    },
                ),
                StateView::Open => (
                    StateView::Poisoned,
                    removed.push(ActionView::Shutdown { peer }),
                ),
                _ => (StateView::Poisoned, removed),
            }
        },
    }
}

/// What an outbound substream that has opened does to a peer.
pub open spec fn outbound_step<S>(
    peer: PeerId,
    state: StateView<S>,
    protocol: Seq<char>,
    fallback: Option<Seq<char>>,
    id: SubstreamId,
    substream: S,
) -> (StateView<S>, Seq<ActionView<S>>) {
    match state {
        // the connection was initiated by the local node, send handshake to remote and wait to
        // receive their handshake back
        StateView::OutboundInitiated { .. } => (
            StateView::Validating {
                protocol,
                fallback,
                outbound: OutboundView::Negotiating,
                inbound: InboundState::Closed,
            },
            seq![ActionView::NegotiateOutbound { peer, substream }],
        ),
        // the inbound substream has been accepted, or both nodes have opened one at the same time
        StateView::Validating { protocol, fallback, outbound, inbound } => if inbound
            is SendingHandshake || inbound is Open || outbound is OutboundInitiated {
            (
                StateView::Validating {
                    protocol,
                    fallback,
                    outbound: OutboundView::Negotiating,
                    inbound,
                },
                seq![ActionView::NegotiateOutbound { peer, substream }],
            )
        } else {
            (StateView::Poisoned, seq![ActionView::CloseSubstream { substream }])
        },
        // the connection was closed while the substream was pending
        StateView::Closed { pending_open } if pending_open == Some(id) => (
            StateView::Closed { pending_open: None },
            seq![ActionView::CloseSubstream { substream }],
        ),
        StateView::Open => (
            StateView::Poisoned,
            seq![ActionView::CloseSubstream { substream }, ActionView::Shutdown { peer }],
        ),
        _ => (StateView::Poisoned, seq![ActionView::CloseSubstream { substream }]),
    }
}

/// What an inbound substream does to a peer.
pub open spec fn inbound_step<S>(
    peer: PeerId,
    state: StateView<S>,
    protocol: Seq<char>,
    fallback: Option<Seq<char>>,
    substream: S,
) -> (StateView<S>, Seq<ActionView<S>>) {
    let read = seq![ActionView::ReadHandshake { peer, substream }];
    match state {
        StateView::Closed { .. } => (
            StateView::Validating {
                protocol,
                fallback,
                outbound: OutboundView::Closed,
                inbound: InboundState::ReadingHandshake,
            },
            read,
        ),
        StateView::Validating { protocol, fallback, outbound, inbound: InboundState::Closed } => (
            StateView::Validating {
                protocol,
                fallback,
                outbound,
                inbound: InboundState::ReadingHandshake,
            },
            read,
        ),
        StateView::OutboundInitiated { substream: pending } => (
            StateView::Validating {
                protocol,
                fallback,
                outbound: OutboundView::OutboundInitiated { substream: pending },
                inbound: InboundState::ReadingHandshake,
            },
            read,
        ),
        _ => (state, seq![ActionView::CloseSubstream { substream }]),
    }
}

/// What a connection that closes means for the user.
pub open spec fn closed_actions<S>(peer: PeerId, state: StateView<S>) -> Seq<ActionView<S>> {
    let removed = seq![ActionView::RemoveOutbound { peer }, ActionView::RemoveInbound { peer }];
    match state {
        StateView::OutboundInitiated { .. } => removed.push(
            open_failure(peer, NotificationError::Rejected),
        ),
        StateView::Open => removed.push(ActionView::Shutdown { peer }).push(stream_closed(peer)),
        StateView::Validating { outbound, .. } if !(outbound is Closed) => removed.push(
            open_failure(peer, NotificationError::Rejected),
        ),
        _ => removed,
    }
}

/// What a failure to open an outbound substream does to a peer.
pub open spec fn open_failure_step<S>(peer: PeerId, state: StateView<S>) -> (
    StateView<S>,
    Seq<ActionView<S>>,
) {
    match state {
        StateView::OutboundInitiated { .. } => (
            StateView::Closed { pending_open: None },
            seq![open_failure(peer, NotificationError::Rejected)],
        ),
        StateView::Validating { outbound, .. } => {
            let removed = seq![
                ActionView::RemoveInbound { peer },
                ActionView::RemoveOutbound { peer },
            ];
            if outbound is Closed {
                (StateView::Closed { pending_open: None }, removed)
            } else {
                (state, removed.push(open_failure(peer, NotificationError::Rejected)))
            }
        },
        StateView::Open => (
            StateView::Closed { pending_open: None },
            seq![ActionView::Shutdown { peer }],
        ),
        _ => (StateView::Closed { pending_open: None }, Seq::empty()),
    }
}

/// Whether accepting the inbound substream of a peer in this state asks for an outbound substream.
pub open spec fn accept_opens<S>(state: StateView<S>) -> bool {
    state matches StateView::Validating { outbound, inbound, .. } && outbound is Closed && inbound
        is Validating
}

/// What the verdict on an inbound substream does to a peer. `opened` is what became of the
/// outbound substream, where one was asked for.
pub open spec fn validation_step<S>(
    peer: PeerId,
    state: StateView<S>,
    result: ValidationResult,
    opened: Option<SubstreamId>,
) -> (StateView<S>, Seq<ActionView<S>>) {
    match state {
        StateView::Validating {
            protocol,
            fallback,
            outbound,
            inbound: InboundState::Validating { inbound },
        } => match result {
            ValidationResult::Reject => (
                StateView::Closed { pending_open: outbound.pending_open() },
                seq![
                    ActionView::CloseSubstream { substream: inbound },
                    ActionView::RemoveOutbound { peer },
                    ActionView::RemoveInbound { peer },
                ],
            ),
            ValidationResult::Accept => if outbound is Closed {
                match opened {
                    Some(substream) => (
                        StateView::Validating {
                            protocol,
                            fallback,
                            outbound: OutboundView::OutboundInitiated { substream },
                            inbound: InboundState::SendingHandshake,
                        },
                        seq![ActionView::SendHandshake { peer, substream: inbound }],
                    ),
                    None => (
                        StateView::Closed { pending_open: None },
                        seq![ActionView::CloseSubstream { substream: inbound }],
                    ),
                }
            } else {
                (
                    StateView::Validating {
                        protocol,
                        fallback,
                        outbound,
                        inbound: InboundState::SendingHandshake,
                    },
                    seq![ActionView::SendHandshake { peer, substream: inbound }],
                )
            },
        },
        _ => (state, Seq::empty()),
    }
}

} // verus!
