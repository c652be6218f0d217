//! Notification protocol.
//!
//! A notification stream to a peer is a pair of substreams, one in each direction. It is open once
//! both nodes have sent their handshake over the substream that the other one has opened.

use self::state::{Action, HandshakeEvent, InboundState, OutboundState, PeerState, StateView};
use self::types::{NotificationCommand, NotificationError, NotificationEvent, ValidationResult};
use crate::collections;
use crate::collections::AssocMap;
use crate::error::Error;
use crate::peer_id::PeerId;
use crate::protocol::{Direction, TransportEvent};
use crate::types::{copy_bytes, copy_fallback, ProtocolName, SubstreamId};
use vstd::prelude::*;

pub mod config;
pub mod connection;
pub mod flows;
pub mod handle;
pub mod laws;
pub mod service;
pub mod state;
pub mod types;

verus! {

/// Peer context.
pub struct PeerContext<S> {
    /// Peer state.
    pub state: PeerState<S>,
}

impl<S> PeerContext<S> {
    /// Create new [`PeerContext`].
    pub fn new() -> (r: Self)
        ensures
            r.state@ == (StateView::<S>::Closed { pending_open: None }),
    {
        PeerContext { state: PeerState::Closed { pending_open: None } }
    }
}

/// The state of a context.
pub open spec fn context_state<S>(context: PeerContext<S>) -> StateView<S> {
    context.state@
}

/// What happens next in the life of the protocol.
#[derive(Debug, PartialEq, Eq)]
pub enum ProtocolInput<S> {
    /// An event of the handshake service.
    Handshake {
        /// Peer ID.
        peer: PeerId,
        /// Event.
        event: HandshakeEvent<S>,
    },
    /// A connection handler has exited.
    Shutdown {
        /// Peer ID.
        peer: PeerId,
    },
    /// An event of the transport.
    Transport(TransportEvent<S>),
    /// A command of the user.
    Command(NotificationCommand),
    /// One of the channels is closed.
    Exhausted,
}

/// The notification protocol.
pub struct NotificationProtocol<S> {
    /// Handshake bytes.
    handshake: Vec<u8>,
    /// Auto accept inbound substream if the outbound substream was initiated by the local node.
    auto_accept: bool,
    /// Connected peers.
    peers: AssocMap<PeerId, PeerContext<S>>,
    /// Pending outbound substreams.
    pending_outbound: AssocMap<SubstreamId, PeerId>,
}

/// The protocol: the state of each connected peer, the peer of each pending outbound substream,
/// and the settings.
pub struct ProtocolView<S> {
    /// The state of each connected peer.
    pub peers: Map<PeerId, StateView<S>>,
    /// The peer of each pending outbound substream.
    pub pending_outbound: Map<SubstreamId, PeerId>,
    /// The local handshake.
    pub handshake: Seq<u8>,
    /// Whether inbound substreams are accepted where there is an outbound one.
    pub auto_accept: bool,
}

impl<S> View for NotificationProtocol<S> {
    type V = ProtocolView<S>;

    open spec fn view(&self) -> ProtocolView<S> {
        ProtocolView {
            peers: self.peers(),
            pending_outbound: self.pending_outbound(),
            handshake: self.handshake(),
            auto_accept: self.auto_accept(),
        }
    }
}

impl<S> ProtocolView<S> {
    /// Puts `peer` into a state.
    pub open spec fn with_state(self, peer: PeerId, next: StateView<S>) -> Self {
        ProtocolView { peers: self.peers.insert(peer, next), ..self }
    }

    /// What a peer that is put into a state, with actions, makes of the protocol.
    pub open spec fn stepped(self, peer: PeerId, step: (StateView<S>, Seq<state::ActionView<S>>)) -> (
        Self,
        Seq<state::ActionView<S>>,
    ) {
        (self.with_state(peer, step.0), step.1)
    }

    /// What an event of the transport does.
    pub open spec fn on_transport(self, event: TransportEvent<S>) -> (
        Self,
        Seq<state::ActionView<S>>,
    ) {
        match event {
            TransportEvent::ConnectionEstablished { peer, .. } => if self.peers.contains_key(peer) {
                (self, Seq::empty())
            } else {
                (self.with_state(peer, StateView::Closed { pending_open: None }), Seq::empty())
            },
            TransportEvent::ConnectionClosed { peer } => if self.peers.contains_key(peer) {
                (
                    ProtocolView { peers: self.peers.remove(peer), ..self },
                    state::closed_actions(peer, self.peers[peer]),
                )
            } else {
                (self, Seq::empty())
            },
            TransportEvent::SubstreamOpened { peer, protocol, fallback, direction, substream } => {
                let fallback = crate::types::fallback_view(fallback);
                match direction {
                    Direction::Inbound => self.stepped(
                        peer,
                        state::inbound_step(
                            peer,
                            self.peers[peer],
                            protocol@,
                            fallback,
                            substream,
                        ),
                    ),
                    Direction::Outbound(id) => {
                        let removed = ProtocolView {
                            pending_outbound: self.pending_outbound.remove(id),
                            ..self
                        };
                        removed.stepped(
                            peer,
                            state::outbound_step(
                                peer,
                                self.peers[peer],
                                protocol@,
                                fallback,
                                id,
                                substream,
                            ),
                        )
                    },
                }
            },
            TransportEvent::SubstreamOpenFailure { substream, .. } => {
                let removed = ProtocolView {
                    pending_outbound: self.pending_outbound.remove(substream),
                    ..self
                };
                let peer = self.pending_outbound[substream];
                if self.pending_outbound.contains_key(substream) && self.peers.contains_key(peer) {
                    removed.stepped(peer, state::open_failure_step(peer, self.peers[peer]))
                } else {
                    (removed, Seq::empty())
                }
            },
            TransportEvent::DialFailure { .. } => (self, Seq::empty()),
        }
    }

    /// What a command of the user does. `opened` is what the transport answered, where it is asked
    /// for an outbound substream.
    pub open spec fn on_command(self, command: NotificationCommand, opened: Option<SubstreamId>) -> (
        Self,
        Seq<state::ActionView<S>>,
    ) {
        match command {
            NotificationCommand::OpenSubstream { peer } => {
                let failed = seq![state::open_failure::<S>(peer, NotificationError::NoConnection)];
                if !self.peers.contains_key(peer) {
                    (self, failed)
                } else if !(self.peers[peer] is Closed) {
                    (
                        self.with_state(peer, StateView::Poisoned),
                        state::poison_actions(peer, self.peers[peer]),
                    )
                } else {
                    match opened {
                        Some(substream) => (
                            ProtocolView {
                                pending_outbound: self.pending_outbound.insert(substream, peer),
                                ..self.with_state(peer, StateView::OutboundInitiated { substream })
                            },
                            Seq::empty(),
                        ),
                        None => (
                            self.with_state(peer, StateView::Closed { pending_open: None }),
                            failed,
                        ),
                    }
                }
            },
            NotificationCommand::CloseSubstream { peer } => if self.peers.contains_key(peer) {
                (
                    self.with_state(peer, StateView::Closed { pending_open: None }),
                    seq![state::ActionView::Shutdown { peer }, state::stream_closed::<S>(peer)],
                )
            } else {
                (self, Seq::empty())
            },
            NotificationCommand::SubstreamValidated { peer, result } => if self.peers.contains_key(
                peer,
            ) {
                self.stepped(
                    peer,
                    state::validation_step(peer, self.peers[peer], result, opened),
                )
            } else {
                (self, Seq::empty())
            },
            NotificationCommand::SetHandshake { handshake } => (
                ProtocolView { handshake: handshake@, ..self },
                seq![state::ActionView::SetHandshake { handshake: handshake@ }],
            ),
        }
    }

    /// Whether an input can come in this state: substreams and exits of connection handlers come
    /// from connected peers, and only an open notification stream can be closed.
    pub open spec fn admits(self, input: ProtocolInput<S>) -> bool {
        match input {
            ProtocolInput::Shutdown { peer } => self.peers.contains_key(peer),
            ProtocolInput::Transport(TransportEvent::SubstreamOpened { peer, .. }) =>
                self.peers.contains_key(peer),
            ProtocolInput::Command(NotificationCommand::CloseSubstream { peer }) =>
                self.peers.contains_key(peer) ==> self.peers[peer] is Open,
            _ => true,
        }
    }

    /// What an input does.
    pub open spec fn on_input(self, input: ProtocolInput<S>, opened: Option<SubstreamId>) -> (
        Self,
        Seq<state::ActionView<S>>,
    ) {
        match input {
            ProtocolInput::Handshake { peer, event } => if self.peers.contains_key(peer) {
                self.stepped(
                    peer,
                    state::handshake_step(peer, self.peers[peer], self.auto_accept, event),
                )
            } else {
                (self, Seq::empty())
            },
            ProtocolInput::Shutdown { peer } => (
                self.with_state(peer, StateView::Closed { pending_open: None }),
                seq![state::stream_closed::<S>(peer)],
            ),
            ProtocolInput::Transport(event) => self.on_transport(event),
            ProtocolInput::Command(command) => self.on_command(command, opened),
            ProtocolInput::Exhausted => (self, Seq::empty()),
        }
    }
}

impl<S> NotificationProtocol<S> {
    /// The state of each connected peer.
    pub closed spec fn peers(self) -> Map<PeerId, StateView<S>> {
        self.peers@.map_values(|c: PeerContext<S>| context_state(c))
    }

    /// The peer of each pending outbound substream.
    pub closed spec fn pending_outbound(self) -> Map<SubstreamId, PeerId> {
        self.pending_outbound@
    }

    /// The local handshake.
    pub closed spec fn handshake(self) -> Seq<u8> {
        self.handshake@
    }

    /// Whether inbound substreams are accepted where there is an outbound one.
    pub closed spec fn auto_accept(self) -> bool {
        self.auto_accept
    }

    /// Nothing but the peers and the pending substreams may differ.
    pub open spec fn same_settings(self, other: Self) -> bool {
        self.handshake() == other.handshake() && self.auto_accept() == other.auto_accept()
    }

    /// Nothing but the peers may differ.
    pub open spec fn same_but_peers(self, other: Self) -> bool {
        self.same_settings(other) && self.pending_outbound() == other.pending_outbound()
    }

    /// Create new [`NotificationProtocol`].
    pub fn new(handshake: Vec<u8>, auto_accept: bool) -> (r: Self)
        ensures
            r.peers() == Map::<PeerId, StateView<S>>::empty(),
            r.pending_outbound() == Map::<SubstreamId, PeerId>::empty(),
            r.handshake() == handshake@,
            r.auto_accept() == auto_accept,
    {
        let r = NotificationProtocol {
            handshake,
            auto_accept,
            peers: AssocMap::new(),
            pending_outbound: AssocMap::new(),
        };
        assert(r.peers() =~= Map::<PeerId, StateView<S>>::empty());
        r
    }

    /// Whether `peer` is connected.
    pub fn contains_peer(&self, peer: &PeerId) -> (r: bool)
        ensures
            r == self.peers().contains_key(*peer),
    {
        self.peers.contains_key(peer)
    }

    /// The state of a connected peer.
    pub fn peer_state(&self, peer: &PeerId) -> (r: Option<&PeerState<S>>)
        ensures
            match r {
                Some(state) => self.peers().contains_key(*peer) && state@ == self.peers()[*peer],
                None => !self.peers().contains_key(*peer),
            },
    {
        match self.peers.get(peer) {
            Some(context) => Some(&context.state),
            None => None,
        }
    }

    /// Puts `peer` into a state.
    pub fn set_state(&mut self, peer: PeerId, state: PeerState<S>)
        ensures
            final(self).same_but_peers(*old(self)),
            final(self).peers() == old(self).peers().insert(peer, state@),
    {
        let context = PeerContext { state };
        proof {
            collections::lemma_map_values_insert(
                self.peers@,
                |c: PeerContext<S>| context_state(c),
                peer,
                context,
            );
        }
        self.peers.insert(peer, context);
    }

    fn take_state(&mut self, peer: &PeerId) -> (r: Option<PeerState<S>>)
        ensures
            final(self).same_but_peers(*old(self)),
            final(self).peers() == old(self).peers().remove(*peer),
            match r {
                Some(state) => old(self).peers().contains_key(*peer) && state@ == old(
                    self,
                ).peers()[*peer],
                None => !old(self).peers().contains_key(*peer),
            },
    {
        proof {
            collections::lemma_map_values_remove(
                self.peers@,
                |c: PeerContext<S>| context_state(c),
                *peer,
            );
        }
        match self.peers.remove(peer) {
            Some(context) => Some(context.state),
            None => None,
        }
    }

    /// Connection established to remote node.
    pub fn on_connection_established(&mut self, peer: PeerId) -> (r: Result<(), Error>)
        ensures
            final(self).same_but_peers(*old(self)),
            match r {
                Ok(_) => {
                    &&& !old(self).peers().contains_key(peer)
                    &&& final(self).peers() == old(self).peers().insert(
                        peer,
                        StateView::Closed { pending_open: None },
                    )
                },
                Err(e) => {
                    &&& old(self).peers().contains_key(peer)
                    &&& e == Error::PeerAlreadyExists(peer)
                    &&& final(self).peers() == old(self).peers()
                },
            },
    {
        if self.contains_peer(&peer) {
            return Err(Error::PeerAlreadyExists(peer));
        }
        self.set_state(peer, PeerState::Closed { pending_open: None });
        Ok(())
    }

    /// Connection closed to remote node.
    ///
    /// If the connection was considered open (both substreams were open), user is notified that
    /// the notification stream was closed.
    ///
    /// If the connection was still in progress (either substream was not fully open), the user is
    /// reported about it only if they had opened an outbound substream (outbound is either fully
    /// open, it had been initiated or the substream was under negotiation).
    pub fn on_connection_closed(&mut self, peer: PeerId) -> (r: Result<Vec<Action<S>>, Error>)
        ensures
            final(self).same_but_peers(*old(self)),
            final(self).peers() == old(self).peers().remove(peer),
            match r {
                Ok(actions) => {
                    &&& old(self).peers().contains_key(peer)
                    &&& state::action_views(actions@) == state::closed_actions(
                        peer,
                        old(self).peers()[peer],
                    )
                },
                Err(e) => {
                    &&& !old(self).peers().contains_key(peer)
                    &&& e == Error::PeerDoesntExist(peer)
                },
            },
    {
        let state = match self.take_state(&peer) {
            Some(state) => state,
            None => {
                return Err(Error::PeerDoesntExist(peer));
            },
        };
        let mut actions: Vec<Action<S>> = Vec::new();
        actions.push(Action::RemoveOutbound { peer });
        actions.push(Action::RemoveInbound { peer });
        let ghost before = state@;
        match state {
            PeerState::OutboundInitiated { .. } => {
                actions.push(rejected(peer));
            },
            PeerState::Open => {
                actions.push(Action::Shutdown { peer });
                actions.push(Action::Report(NotificationEvent::NotificationStreamClosed { peer }));
            },
            PeerState::Validating { outbound, .. } => {
                if !outbound.is_closed() {
                    actions.push(rejected(peer));
                }
            },
            _ => {},
        }
        assert(state::action_views(actions@) =~= state::closed_actions(peer, before));
        Ok(actions)
    }

    /// Local node opened a substream to remote node.
    ///
    /// The connection can be in three different states:
    ///   - this is the first substream that was opened and thus the connection was initiated by the
    ///     local node
    ///   - this is a response to a previously received inbound substream which the local node
    ///     accepted and as a result, opened its own substream
    ///   - local and remote nodes opened substreams at the same time
    ///
    /// In the first case, the local node's handshake is sent to remote node and the substream is
    /// polled in the background until they either send their handshake or close the substream.
    ///
    /// For the second case, the only valid states of the inbound substream are
    /// [`InboundState::Open`] and [`InboundState::SendingHandshake`]. For the third case, the
    /// outbound state must be [`OutboundState::OutboundInitiated`].
    pub fn on_outbound_substream(
        &mut self,
        protocol: ProtocolName,
        fallback: Option<ProtocolName>,
        peer: PeerId,
        substream_id: SubstreamId,
        outbound: S,
    ) -> (r: Vec<Action<S>>)
        requires
            old(self).peers().contains_key(peer),
        ensures
            final(self).same_settings(*old(self)),
            final(self).pending_outbound() == old(self).pending_outbound().remove(substream_id),
            ({
                let (next, actions) = state::outbound_step(
                    peer,
                    old(self).peers()[peer],
                    protocol@,
                    crate::types::fallback_view(fallback),
                    substream_id,
                    outbound,
                );
                &&& final(self).peers() == old(self).peers().insert(peer, next)
                &&& state::action_views(r@) == actions
            }),
    {
        let ghost peers = self.peers();
        let ghost expected = state::outbound_step(
            peer,
            peers[peer],
            protocol@,
            crate::types::fallback_view(fallback),
            substream_id,
            outbound,
        );
        let _ = self.pending_outbound.remove(&substream_id);
        let mut actions: Vec<Action<S>> = Vec::new();
        let next = match self.take_state(&peer) {
            Some(PeerState::OutboundInitiated { .. }) => {
                actions.push(Action::NegotiateOutbound { peer, substream: outbound });
                PeerState::Validating {
                    protocol,
                    fallback,
                    outbound: OutboundState::Negotiating,
                    inbound: InboundState::Closed,
                }
            },
            Some(PeerState::Validating { protocol, fallback, inbound, outbound: outbound_state }) => {
                let accepted = match &inbound {
                    InboundState::SendingHandshake => true,
                    InboundState::Open { .. } => true,
                    _ => match &outbound_state {
                        OutboundState::OutboundInitiated { .. } => true,
                        _ => false,
                    },
                };
                if accepted {
                    actions.push(Action::NegotiateOutbound { peer, substream: outbound });
                    PeerState::Validating {
                        protocol,
                        fallback,
                        outbound: OutboundState::Negotiating,
                        inbound,
                    }
                } else {
                    actions.push(Action::CloseSubstream { substream: outbound });
                    PeerState::Poisoned
                }
            },
            Some(PeerState::Closed { pending_open: Some(id) }) => {
                actions.push(Action::CloseSubstream { substream: outbound });
                if id == substream_id {
                    PeerState::Closed { pending_open: None }
                } else {
                    PeerState::Poisoned
                }
            },
            Some(PeerState::Open) => {
                actions.push(Action::CloseSubstream { substream: outbound });
                actions.push(Action::Shutdown { peer });
                PeerState::Poisoned
            },
            _ => {
                actions.push(Action::CloseSubstream { substream: outbound });
                PeerState::Poisoned
            },
        };
        assert(next@ == expected.0);
        self.set_state(peer, next);
        assert(peers.remove(peer).insert(peer, next@) =~= peers.insert(peer, next@));
        assert(state::action_views(actions@) =~= expected.1);
        actions
    }

    /// Remote opened a substream to local node.
    ///
    /// The peer can be in three different states for the inbound substream to be considered valid:
    ///   - the connection is closed
    ///   - outbound substream has been opened but not yet acknowledged by the remote peer
    ///   - outbound substream has been opened and acknowledged by the remote peer and it's being
    ///     negotiated
    ///
    /// If remote opened more than one substream, the new substream is simply discarded.
    pub fn on_inbound_substream(
        &mut self,
        protocol: ProtocolName,
        fallback: Option<ProtocolName>,
        peer: PeerId,
        substream: S,
    ) -> (r: Vec<Action<S>>)
        requires
            old(self).peers().contains_key(peer),
        ensures
            final(self).same_but_peers(*old(self)),
            ({
                let (next, actions) = state::inbound_step(
                    peer,
                    old(self).peers()[peer],
                    protocol@,
                    crate::types::fallback_view(fallback),
                    substream,
                );
                &&& final(self).peers() == old(self).peers().insert(peer, next)
                &&& state::action_views(r@) == actions
            }),
    {
        let ghost peers = self.peers();
        let ghost expected = state::inbound_step(
            peer,
            peers[peer],
            protocol@,
            crate::types::fallback_view(fallback),
            substream,
        );
        let mut actions: Vec<Action<S>> = Vec::new();
        let next = match self.take_state(&peer) {
            Some(PeerState::Closed { .. }) => {
                actions.push(Action::ReadHandshake { peer, substream });
                PeerState::Validating {
                    protocol,
                    fallback,
                    outbound: OutboundState::Closed,
                    inbound: InboundState::ReadingHandshake,
                }
            },
            Some(
                PeerState::Validating { protocol, fallback, outbound, inbound: InboundState::Closed },
            ) => {
                actions.push(Action::ReadHandshake { peer, substream });
                PeerState::Validating {
                    protocol,
                    fallback,
                    outbound,
                    inbound: InboundState::ReadingHandshake,
                }
            },
            Some(PeerState::OutboundInitiated { substream: pending }) => {
                actions.push(Action::ReadHandshake { peer, substream });
                PeerState::Validating {
                    protocol,
                    fallback,
                    outbound: OutboundState::OutboundInitiated { substream: pending },
                    inbound: InboundState::ReadingHandshake,
                }
            },
            Some(state) => {
                actions.push(Action::CloseSubstream { substream });
                state
            },
            None => {
                assert(false);
                PeerState::Poisoned
            },
        };
        assert(next@ == expected.0);
        self.set_state(peer, next);
        assert(peers.remove(peer).insert(peer, next@) =~= peers.insert(peer, next@));
        assert(state::action_views(actions@) =~= expected.1);
        actions
    }

    /// Failed to open substream to remote node.
    ///
    /// If the substream was initiated by the local node, it must be reported that the substream
    /// failed to open. Otherwise the peer state is silently converted to `Closed`.
    pub fn on_substream_open_failure(&mut self, substream: SubstreamId) -> (r: Vec<Action<S>>)
        ensures
            final(self).same_settings(*old(self)),
            final(self).pending_outbound() == old(self).pending_outbound().remove(substream),
            ({
                let pending = old(self).pending_outbound();
                let peer = pending[substream];
                if pending.contains_key(substream) && old(self).peers().contains_key(peer) {
                    let (next, actions) = state::open_failure_step(peer, old(self).peers()[peer]);
                    &&& final(self).peers() == old(self).peers().insert(peer, next)
                    &&& state::action_views(r@) == actions
                } else {
                    &&& final(self).peers() == old(self).peers()
                    &&& r@.len() == 0
                }
            }),
    {
        let ghost peers = self.peers();
        let mut actions: Vec<Action<S>> = Vec::new();
        let peer = match self.pending_outbound.remove(&substream) {
            Some(peer) => peer,
            None => {
                return actions;
            },
        };
        let state = match self.take_state(&peer) {
            Some(state) => state,
            None => {
                assert(peers.remove(peer) =~= peers);
                return actions;
            },
        };
        let ghost expected = state::open_failure_step(peer, state@);
        let next = match state {
            PeerState::OutboundInitiated { .. } => {
                actions.push(rejected(peer));
                PeerState::Closed { pending_open: None }
            },
            PeerState::Validating { protocol, fallback, outbound, inbound } => {
                actions.push(Action::RemoveInbound { peer });
                actions.push(Action::RemoveOutbound { peer });
                if outbound.is_closed() {
                    PeerState::Closed { pending_open: None }
                } else {
                    actions.push(rejected(peer));
                    PeerState::Validating { protocol, fallback, outbound, inbound }
                }
            },
            PeerState::Open => {
                actions.push(Action::Shutdown { peer });
                PeerState::Closed { pending_open: None }
            },
            _ => PeerState::Closed { pending_open: None },
        };
        assert(next@ == expected.0);
        self.set_state(peer, next);
        assert(peers.remove(peer).insert(peer, next@) =~= peers.insert(peer, next@));
        assert(state::action_views(actions@) =~= expected.1);
        actions
    }

    /// Whether a command to open a substream to `peer` asks the transport for one.
    pub fn opens_substream(&self, peer: &PeerId) -> (r: bool)
        ensures
            r == (self.peers().contains_key(*peer) && self.peers()[*peer] is Closed),
    {
        match self.peer_state(peer) {
            Some(PeerState::Closed { .. }) => true,
            _ => false,
        }
    }

    /// Open substream to remote `peer`.
    ///
    /// Outbound substream can opened only if the `PeerState` is `Closed`.
    /// By forcing the substream to be opened only if the state is currently closed,
    /// `NotificationProtocol` can enforce more predictable state transitions.
    ///
    /// Other states either imply an invalid state transition ([`PeerState::Open`]) or that an
    /// inbound substream has already been received and its currently being validated by the user.
    ///
    /// `opened` is what the transport answered, where [`NotificationProtocol::opens_substream`]
    /// says that it is asked; it is ignored otherwise.
    pub fn on_open_substream(&mut self, peer: PeerId, opened: Result<SubstreamId, Error>) -> (r: (
        Result<(), Error>,
        Vec<Action<S>>,
    ))
        ensures
            final(self).same_settings(*old(self)),
            if !old(self).peers().contains_key(peer) {
                &&& r.0 == Err::<(), Error>(Error::PeerDoesntExist(peer))
                &&& state::action_views(r.1@) == seq![
                    state::open_failure::<S>(peer, NotificationError::NoConnection),
                ]
                &&& final(self).peers() == old(self).peers()
                &&& final(self).pending_outbound() == old(self).pending_outbound()
            } else {
                &&& r.0 == Ok::<(), Error>(())
                &&& if !(old(self).peers()[peer] is Closed) {
                    &&& state::action_views(r.1@) == state::poison_actions(
                        peer,
                        old(self).peers()[peer],
                    )
                    &&& final(self).peers() == old(self).peers().insert(peer, StateView::Poisoned)
                    &&& final(self).pending_outbound() == old(self).pending_outbound()
                } else {
                    match opened {
                        Ok(substream) => {
                            &&& r.1@.len() == 0
                            &&& final(self).peers() == old(self).peers().insert(
                                peer,
                                StateView::OutboundInitiated { substream },
                            )
                            &&& final(self).pending_outbound() == old(
                                self,
                            ).pending_outbound().insert(substream, peer)
                        },
                        Err(_) => {
                            &&& state::action_views(r.1@) == seq![
                                state::open_failure::<S>(peer, NotificationError::NoConnection),
                            ]
                            &&& final(self).peers() == old(self).peers().insert(
                                peer,
                                StateView::Closed { pending_open: None },
                            )
                            &&& final(self).pending_outbound() == old(self).pending_outbound()
                        },
                    }
                }
            },
    {
        let mut actions: Vec<Action<S>> = Vec::new();
        if !self.contains_peer(&peer) {
            actions.push(failure(peer, NotificationError::NoConnection));
            assert(state::action_views(actions@) =~= seq![
                state::open_failure::<S>(peer, NotificationError::NoConnection),
            ]);
            return (Err(Error::PeerDoesntExist(peer)), actions);
        }
        if !self.opens_substream(&peer) {
            let ghost expected = state::poison_actions(peer, self.peers()[peer]);
            if let Some(PeerState::Open) = self.peer_state(&peer) {
                actions.push(Action::Shutdown { peer });
            }
            self.set_state(peer, PeerState::Poisoned);
            assert(state::action_views(actions@) =~= expected);
            return (Ok(()), actions);
        }
        match opened {
            Ok(substream) => {
                self.pending_outbound.insert(substream, peer);
                self.set_state(peer, PeerState::OutboundInitiated { substream });
            },
            Err(_) => {
                actions.push(failure(peer, NotificationError::NoConnection));
                assert(state::action_views(actions@) =~= seq![
                    state::open_failure::<S>(peer, NotificationError::NoConnection),
                ]);
                self.set_state(peer, PeerState::Closed { pending_open: None });
            },
        }
        (Ok(()), actions)
    }

    /// Close substream to remote `peer`.
    ///
    /// This function can only be called if the substream was actually open, any other state is
    /// unreachable as the user is unable to emit this command to [`NotificationProtocol`] unless
    /// the connection has been fully opened.
    pub fn on_close_substream(&mut self, peer: PeerId) -> (r: Vec<Action<S>>)
        requires
            old(self).peers().contains_key(peer) ==> old(self).peers()[peer] is Open,
        ensures
            final(self).same_but_peers(*old(self)),
            if old(self).peers().contains_key(peer) {
                &&& final(self).peers() == old(self).peers().insert(
                    peer,
                    StateView::Closed { pending_open: None },
                )
                &&& state::action_views(r@) == seq![
                    state::ActionView::Shutdown { peer },
                    state::stream_closed::<S>(peer),
                ]
            } else {
                &&& final(self).peers() == old(self).peers()
                &&& r@.len() == 0
            },
    {
        let mut actions: Vec<Action<S>> = Vec::new();
        if !self.contains_peer(&peer) {
            return actions;
        }
        actions.push(Action::Shutdown { peer });
        self.set_state(peer, PeerState::Closed { pending_open: None });
        actions.push(Action::Report(NotificationEvent::NotificationStreamClosed { peer }));
        assert(state::action_views(actions@) =~= seq![
            state::ActionView::Shutdown { peer },
            state::stream_closed::<S>(peer),
        ]);
        actions
    }

    /// Whether a verdict on the inbound substream of `peer` asks the transport for an outbound
    /// one.
    pub fn verdict_opens_substream(&self, peer: &PeerId, result: &ValidationResult) -> (r: bool)
        ensures
            r == (*result == ValidationResult::Accept && self.peers().contains_key(*peer)
                && state::accept_opens(self.peers()[*peer])),
    {
        let accepted = match result {
            ValidationResult::Accept => true,
            ValidationResult::Reject => false,
        };
        match self.peer_state(peer) {
            Some(
                PeerState::Validating {
                    outbound: OutboundState::Closed,
                    inbound: InboundState::Validating { .. },
                    ..
                },
            ) => accepted,
            _ => false,
        }
    }

    /// Handle validation result.
    ///
    /// The validation result binary (accept/reject). If the node is rejected, the substreams are
    /// discarded and state is set to `PeerState::Closed`. If there was an outbound substream in
    /// progress while the connection was rejected by the user, the outbound state is discarded,
    /// except for the substream ID of the substream which is kept for later use, in case the
    /// substream happens to open.
    ///
    /// If the node is accepted and there is no outbound substream to them open yet, a new substream
    /// is opened and once it opens, the local handshake will be sent to the remote peer and if
    /// they also accept the substream the connection is considered fully open.
    ///
    /// `opened` is what the transport answered, where
    /// [`NotificationProtocol::verdict_opens_substream`] says that it is asked; it is ignored
    /// otherwise.
    pub fn on_validation_result(
        &mut self,
        peer: PeerId,
        result: ValidationResult,
        opened: Result<SubstreamId, Error>,
    ) -> (r: (Result<(), Error>, Vec<Action<S>>))
        ensures
            final(self).same_but_peers(*old(self)),
            if old(self).peers().contains_key(peer) {
                let before = old(self).peers()[peer];
                let (next, actions) = state::validation_step(peer, before, result, opened.ok());
                &&& final(self).peers() == old(self).peers().insert(peer, next)
                &&& state::action_views(r.1@) == actions
                &&& r.0 == (if result == ValidationResult::Accept && state::accept_opens(before) {
                    match opened {
                        Ok(_) => Ok(()),
                        Err(e) => Err(e),
                    }
                } else {
                    Ok(())
                })
            } else {
                &&& final(self).peers() == old(self).peers()
                &&& r.0 == Err::<(), Error>(Error::PeerDoesntExist(peer))
                &&& r.1@.len() == 0
            },
    {
        let ghost peers = self.peers();
        let mut actions: Vec<Action<S>> = Vec::new();
        let state = match self.take_state(&peer) {
            Some(state) => state,
            None => {
                assert(peers.remove(peer) =~= peers);
                return (Err(Error::PeerDoesntExist(peer)), actions);
            },
        };
        let ghost expected = state::validation_step(peer, state@, result, opened.ok());
        let mut answer: Result<(), Error> = Ok(());
        let next = match state {
            PeerState::Validating {
                protocol,
                fallback,
                outbound,
                inbound: InboundState::Validating { inbound },
            } => match result {
                ValidationResult::Reject => {
                    actions.push(Action::CloseSubstream { substream: inbound });
                    actions.push(Action::RemoveOutbound { peer });
                    actions.push(Action::RemoveInbound { peer });
                    PeerState::Closed { pending_open: outbound.pending_open() }
                },
                ValidationResult::Accept => if outbound.is_closed() {
                    match opened {
                        Ok(substream) => {
                            actions.push(Action::SendHandshake { peer, substream: inbound });
                            PeerState::Validating {
                                protocol,
                                fallback,
                                outbound: OutboundState::OutboundInitiated { substream },
                                inbound: InboundState::SendingHandshake,
                            }
                        },
                        Err(error) => {
                            actions.push(Action::CloseSubstream { substream: inbound });
                            answer = Err(error);
                            PeerState::Closed { pending_open: None }
                        },
                    }
                } else {
                    actions.push(Action::SendHandshake { peer, substream: inbound });
                    PeerState::Validating {
                        protocol,
                        fallback,
                        outbound,
                        inbound: InboundState::SendingHandshake,
                    }
                },
            },
            state => state,
        };
        assert(next@ == expected.0);
        self.set_state(peer, next);
        assert(peers.remove(peer).insert(peer, next@) =~= peers.insert(peer, next@));
        assert(state::action_views(actions@) =~= expected.1);
        (answer, actions)
    }

    /// Handle handshake event.
    ///
    /// There are three different handshake event types:
    ///   - outbound substream negotiated
    ///   - inbound substream negotiated
    ///   - substream negotiation error
    ///
    /// Neither outbound nor inbound substream negotiated automatically means that the connection is
    /// considered open as both substreams must be fully negotiated for that to be the case.
    ///
    /// If the negotiation fails, the user may have to be informed of that. Outbound substream
    /// failure always results in user getting notified since the existence of an outbound substream
    /// means that the user has either initiated an outbound substreams or has accepted an inbound
    /// substreams, resulting in an outbound substreams.
    ///
    /// Negotiation failure for inbound substreams which are in the state
    /// [`InboundState::ReadingHandshake`] don't result in any notification because while the
    /// handshake is being read from the substream, the user is oblivious to the fact that an
    /// inbound substream has even been received.
    pub fn on_handshake_event(&mut self, peer: PeerId, event: HandshakeEvent<S>) -> (r: Vec<
        Action<S>,
    >)
        ensures
            final(self).same_but_peers(*old(self)),
            if old(self).peers().contains_key(peer) {
                let (next, actions) = state::handshake_step(
                    peer,
                    old(self).peers()[peer],
                    old(self).auto_accept(),
                    event,
                );
                &&& final(self).peers() == old(self).peers().insert(peer, next)
                &&& state::action_views(r@) == actions
            } else {
                &&& final(self).peers() == old(self).peers()
                &&& r@.len() == 0
            },
    {
        let ghost peers = self.peers();
        let mut actions: Vec<Action<S>> = Vec::new();
        let state = match self.take_state(&peer) {
            Some(state) => state,
            None => {
                assert(peers.remove(peer) =~= peers);
                return actions;
            },
        };
        let ghost expected = state::handshake_step(peer, state@, self.auto_accept, event);
        let next = match event {
            HandshakeEvent::OutboundNegotiated { handshake, substream } => {
                actions.push(Action::RemoveOutbound { peer });
                match state {
                    PeerState::Validating {
                        protocol,
                        fallback,
                        outbound: OutboundState::Negotiating,
                        inbound,
                    } => PeerState::Validating {
                        protocol,
                        fallback,
                        outbound: OutboundState::Open { handshake, outbound: substream },
                        inbound,
                    },
                    PeerState::Open => {
                        actions.push(Action::Shutdown { peer });
                        PeerState::Poisoned
                    },
                    _ => PeerState::Poisoned,
                }
            },
            HandshakeEvent::InboundNegotiated { handshake, substream } => {
                actions.push(Action::RemoveInbound { peer });
                match state {
                    PeerState::Validating {
                        protocol,
                        fallback,
                        outbound,
                        inbound: InboundState::ReadingHandshake,
                    } => if !outbound.is_closed() && self.auto_accept {
                        actions.push(Action::SendHandshake { peer, substream });
                        PeerState::Validating {
                            protocol,
                            fallback,
                            outbound,
                            inbound: InboundState::SendingHandshake,
                        }
                    } else {
                        let next = PeerState::Validating {
                            protocol: protocol.clone(),
                            fallback: copy_fallback(&fallback),
                            outbound,
                            inbound: InboundState::Validating { inbound: substream },
                        };
                        actions.push(
                            Action::Report(
                                NotificationEvent::ValidateSubstream {
                                    protocol,
                                    fallback,
                                    peer,
                                    handshake,
                                },
                            ),
                        );
                        next
                    },
                    PeerState::Validating {
                        protocol,
                        fallback,
                        outbound,
                        inbound: InboundState::SendingHandshake,
                    } => PeerState::Validating {
                        protocol,
                        fallback,
                        outbound,
                        inbound: InboundState::Open { inbound: substream },
                    },
                    PeerState::Open => {
                        actions.push(Action::Shutdown { peer });
                        PeerState::Poisoned
                    },
                    _ => PeerState::Poisoned,
                }
            },
            HandshakeEvent::NegotiationError => {
                actions.push(Action::RemoveOutbound { peer });
                actions.push(Action::RemoveInbound { peer });
                match state {
                    PeerState::Validating { outbound, .. } => {
                        if !outbound.is_closed() {
                            actions.push(rejected(peer));
                        }
                        PeerState::Closed { pending_open: outbound.pending_open() }
                    },
                    PeerState::Open => {
                        actions.push(Action::Shutdown { peer });
                        PeerState::Poisoned
                    },
                    _ => PeerState::Poisoned,
                }
            },
        };

        // if both inbound and outbound substreams are considered open, notify the user that
        // a notification stream has been opened and set up for sending and receiving
        // notifications to and from remote node
        let last = match next {
            PeerState::Validating {
                protocol,
                fallback,
                outbound: OutboundState::Open { handshake, outbound },
                inbound: InboundState::Open { inbound },
            } => {
                actions.push(Action::StartConnection { peer, inbound, outbound });
                actions.push(
                    Action::Report(
                        NotificationEvent::NotificationStreamOpened {
                            protocol,
                            fallback,
                            peer,
                            handshake,
                        },
                    ),
                );
                PeerState::Open
            },
            next => next,
        };
        assert(last@ == expected.0);
        self.set_state(peer, last);
        assert(peers.remove(peer).insert(peer, last@) =~= peers.insert(peer, last@));
        assert(state::action_views(actions@) =~= expected.1);
        actions
    }

    /// Handle next notification event.
    ///
    /// `opened` is what the transport answered to the request for an outbound substream, where the
    /// input makes one; it is ignored otherwise. What goes wrong shows in the actions alone.
    pub fn next_event(&mut self, input: ProtocolInput<S>, opened: Result<SubstreamId, Error>) -> (r:
        Vec<Action<S>>)
        requires
            old(self)@.admits(input),
        ensures
            (final(self)@, state::action_views(r@)) == old(self)@.on_input(input, opened.ok()),
    {
        let ghost before = self@;
        let ghost answer = opened.ok();
        let actions = match input {
            ProtocolInput::Handshake { peer, event } => self.on_handshake_event(peer, event),
            ProtocolInput::Shutdown { peer } => {
                self.set_state(peer, PeerState::Closed { pending_open: None });
                let mut actions: Vec<Action<S>> = Vec::new();
                actions.push(Action::Report(NotificationEvent::NotificationStreamClosed { peer }));
                actions
            },
            ProtocolInput::Transport(event) => match event {
                TransportEvent::ConnectionEstablished { peer, .. } => {
                    let _ = self.on_connection_established(peer);
                    Vec::new()
                },
                TransportEvent::ConnectionClosed { peer } => match self.on_connection_closed(peer) {
                    Ok(actions) => actions,
                    Err(_) => {
                        assert(before.peers.remove(peer) =~= before.peers);
                        Vec::new()
                    },
                },
                TransportEvent::SubstreamOpened {
                    peer,
                    protocol,
                    fallback,
                    direction,
                    substream,
                } => match direction {
                    Direction::Inbound => self.on_inbound_substream(
                        protocol,
                        fallback,
                        peer,
                        substream,
                    ),
                    Direction::Outbound(id) => self.on_outbound_substream(
                        protocol,
                        fallback,
                        peer,
                        id,
                        substream,
                    ),
                },
                TransportEvent::SubstreamOpenFailure { substream, .. } => {
                    self.on_substream_open_failure(substream)
                },
                TransportEvent::DialFailure { .. } => Vec::new(),
            },
            ProtocolInput::Command(command) => match command {
                NotificationCommand::OpenSubstream { peer } => {
                    let (_, actions) = self.on_open_substream(peer, opened);
                    actions
                },
                NotificationCommand::CloseSubstream { peer } => self.on_close_substream(peer),
                NotificationCommand::SubstreamValidated { peer, result } => {
                    let (_, actions) = self.on_validation_result(peer, result, opened);
                    actions
                },
                NotificationCommand::SetHandshake { handshake } => {
                    let mut actions: Vec<Action<S>> = Vec::new();
                    actions.push(Action::SetHandshake { handshake: copy_bytes(&handshake) });
                    self.handshake = handshake;
                    actions
                },
            },
            ProtocolInput::Exhausted => Vec::new(),
        };
        assert(state::action_views(actions@) =~= before.on_input(input, answer).1);
        actions
    }
}

/// The report that the notification stream to `peer` could not be opened.
fn failure<S>(peer: PeerId, error: NotificationError) -> (r: Action<S>)
    ensures
        r@ == state::open_failure::<S>(peer, error),
{
    Action::Report(NotificationEvent::NotificationStreamOpenFailure { peer, error })
}

fn rejected<S>(peer: PeerId) -> (r: Action<S>)
    ensures
        r@ == state::open_failure::<S>(peer, NotificationError::Rejected),
{
    failure(peer, NotificationError::Rejected)
}

} // verus!
