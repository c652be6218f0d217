//! A notification service on top of bare substreams.
//!
//! The first message over a substream is the handshake of the node that has opened it.

use super::types::ValidationResult;
use crate::collections::AssocMap;
use crate::error::Error;
use crate::peer_id::PeerId;
use crate::types::{copy_bytes, ProtocolName};
use vstd::prelude::*;

verus! {

/// Peer states.
#[derive(Debug, PartialEq, Eq)]
pub enum ServiceState<S> {
    /// Local node received an inbound substream request from an unknown node.
    InboundReceived,
    /// Handshake received from remote peer, validate substream
    UnderValidation {
        /// Substream.
        inbound: S,
    },
    /// Local node has initiated an outbound substream request.
    OutboundInitiated,
    /// Local node has initiated an outbound substream request and while the
    /// outbound substream was being processed, an inbound substream was received.
    OutboundInitiatedInboundUnderValidation {
        /// Substream.
        inbound: S,
    },
    /// Local node has initiated an outbound substream request after it had received an inbound
    /// substream whose handshake is still to come.
    OutboundInitiatedInboundReceived,
}

/// Events emitted by [`NotificationService`].
#[derive(Debug, PartialEq, Eq)]
pub enum ServiceEvent {
    /// Inbound substream received from remote peer.
    ///
    /// Before the substream is accepted, the protocol must check if it
    /// wants to accept this substream by doing whatever validation it needs,
    /// e.g., by checking the handshake and allocating room for it in the peer
    /// table.
    ///
    /// The acceptance result is reported using
    /// [`NotificationService::report_validation_result()`].
    SubstreamReceived {
        /// Remote peer ID.
        peer: PeerId,
        /// Handshake received from the remote peer.
        handshake: Vec<u8>,
    },
}

/// What the transport is to do.
#[derive(Debug, PartialEq, Eq)]
pub enum TransportCommand {
    /// Open a substream.
    OpenSubstream {
        /// Protocol.
        protocol: ProtocolName,
        /// Peer ID.
        peer: PeerId,
    },
}

/// Whether a command asks for a substream of a protocol.
pub open spec fn opens_substream(
    command: TransportCommand,
    protocol: Seq<char>,
    peer: PeerId,
) -> bool {
    match command {
        TransportCommand::OpenSubstream { protocol: name, peer: p } => name@ == protocol && p
            == peer,
    }
}

/// What is left to do for the caller.
#[derive(Debug, PartialEq, Eq)]
pub enum ServiceAction<S> {
    /// Read the handshake of `peer` from `substream`.
    ReadHandshake {
        /// Peer ID.
        peer: PeerId,
        /// Substream.
        substream: S,
    },
    /// Send `handshake` over `substream` and read the one of `peer`.
    ExchangeHandshakes {
        /// Peer ID.
        peer: PeerId,
        /// Substream.
        substream: S,
        /// Local handshake.
        handshake: Vec<u8>,
    },
}

/// The state of a peer after an outbound substream has opened, if the state permits one.
pub open spec fn outbound_state<S>(state: Option<ServiceState<S>>) -> Option<ServiceState<S>> {
    match state {
        None => Some(ServiceState::OutboundInitiated),
        Some(ServiceState::InboundReceived) => Some(
            ServiceState::OutboundInitiatedInboundReceived,
        ),
        Some(ServiceState::UnderValidation { inbound }) => Some(
            ServiceState::OutboundInitiatedInboundUnderValidation { inbound },
        ),
        _ => None,
    }
}

/// The state of a peer after its handshake has come in over `inbound`, if the state permits one.
pub open spec fn validated_state<S>(state: ServiceState<S>, inbound: S) -> Option<ServiceState<S>> {
    match state {
        ServiceState::InboundReceived => Some(ServiceState::UnderValidation { inbound }),
        ServiceState::OutboundInitiated => Some(
            ServiceState::OutboundInitiatedInboundUnderValidation { inbound },
        ),
        _ => None,
    }
}

/// Service allowing the notification protocol to interact with the transport.
pub struct NotificationService<S> {
    /// Protocol.
    protocol: ProtocolName,
    /// Handshake.
    handshake: Vec<u8>,
    /// Peers.
    peers: AssocMap<PeerId, ServiceState<S>>,
}

impl<S> View for NotificationService<S> {
    type V = Map<PeerId, ServiceState<S>>;

    /// The state of each peer.
    closed spec fn view(&self) -> Map<PeerId, ServiceState<S>> {
        self.peers@
    }
}

impl<S> NotificationService<S> {
    /// The protocol and the handshake.
    pub closed spec fn settings(self) -> (Seq<char>, Seq<u8>) {
        (self.protocol@, self.handshake@)
    }

    /// The state of a peer.
    pub open spec fn state(self, peer: PeerId) -> Option<ServiceState<S>> {
        if self@.contains_key(peer) {
            Some(self@[peer])
        } else {
            None
        }
    }

    /// Create new [`NotificationService`].
    pub fn new(protocol: ProtocolName, handshake: Vec<u8>) -> (r: Self)
        ensures
            r@ == Map::<PeerId, ServiceState<S>>::empty(),
            r.settings() == (protocol@, handshake@),
    {
        NotificationService { protocol, handshake, peers: AssocMap::new() }
    }

    /// Set handshake for the notification protocol.
    pub fn set_handshake(&mut self, handshake: Vec<u8>)
        ensures
            final(self)@ == old(self)@,
            final(self).settings() == (old(self).settings().0, handshake@),
    {
        self.handshake = handshake;
    }

    /// Report validation result for an inbound substream.
    ///
    /// If the substream is accepted, an outbound substream is opened to the remote peer. If it is
    /// rejected, the peer is forgotten.
    pub fn report_validation_result(&mut self, peer: PeerId, result: ValidationResult) -> (r: Option<
        TransportCommand,
    >)
        ensures
            final(self).settings() == old(self).settings(),
            match result {
                ValidationResult::Accept => {
                    &&& final(self)@ == old(self)@
                    &&& r matches Some(command) && opens_substream(
                        command,
                        old(self).settings().0,
                        peer,
                    )
                },
                ValidationResult::Reject => {
                    &&& final(self)@ == old(self)@.remove(peer)
                    &&& r is None
                },
            },
    {
        match result {
            ValidationResult::Accept => Some(
                TransportCommand::OpenSubstream { protocol: self.protocol.clone(), peer },
            ),
            ValidationResult::Reject => {
                let _ = self.peers.remove(&peer);
                None
            },
        }
    }

    /// Open new substream to `peer` and send them `handshake` as the initial message.
    ///
    /// This function only initiates the procedure of opening a substream. It fails if there is one
    /// already.
    pub fn open_substream(&self, peer: PeerId) -> (r: Result<TransportCommand, Error>)
        ensures
            match r {
                Ok(command) => !self@.contains_key(peer) && opens_substream(
                    command,
                    self.settings().0,
                    peer,
                ),
                Err(error) => self@.contains_key(peer) && error == Error::PeerAlreadyExists(peer),
            },
    {
        // verify that there isn't an open substream to the peer yet and if so,
        // ask the transport to open a new substream.
        if self.peers.contains_key(&peer) {
            return Err(Error::PeerAlreadyExists(peer));
        }
        Ok(TransportCommand::OpenSubstream { protocol: self.protocol.clone(), peer })
    }

    /// Handle inbound substream of a peer that nothing is known of.
    pub fn on_inbound_substream(&mut self, peer: PeerId, substream: S) -> (r: ServiceAction<S>)
        requires
            !old(self)@.contains_key(peer),
        ensures
            final(self)@ == old(self)@.insert(peer, ServiceState::InboundReceived),
            final(self).settings() == old(self).settings(),
            r == (ServiceAction::ReadHandshake { peer, substream }),
    {
        let _ = self.peers.insert(peer, ServiceState::InboundReceived);
        ServiceAction::ReadHandshake { peer, substream }
    }

    /// Lets the peer be in `state` and exchanges handshakes with it.
    fn send_outbound_handshake(&mut self, peer: PeerId, substream: S, state: ServiceState<S>) -> (r:
        ServiceAction<S>)
        ensures
            final(self)@ == old(self)@.insert(peer, state),
            final(self).settings() == old(self).settings(),
            r matches ServiceAction::ExchangeHandshakes { peer: p, substream: s, handshake } && p
                == peer && s == substream && handshake@ == old(self).settings().1,
    {
        let _ = self.peers.insert(peer, state);
        ServiceAction::ExchangeHandshakes {
            peer,
            substream,
            handshake: copy_bytes(&self.handshake),
        }
    }

    /// Handle outbound substream.
    ///
    /// A peer whose state permits no outbound substream is forgotten.
    pub fn on_outbound_substream(&mut self, peer: PeerId, substream: S) -> (r: Option<
        ServiceAction<S>,
    >)
        ensures
            final(self).settings() == old(self).settings(),
            match outbound_state(old(self).state(peer)) {
                Some(next) => {
                    &&& final(self)@ == old(self)@.insert(peer, next)
                    &&& r matches Some(
                        ServiceAction::ExchangeHandshakes { peer: p, substream: s, handshake },
                    ) && p == peer && s == substream && handshake@ == old(self).settings().1
                },
                None => final(self)@ == old(self)@.remove(peer) && r is None,
            },
    {
        let state = self.peers.remove(&peer);
        match state {
            None => {
                let action = self.send_outbound_handshake(
                    peer,
                    substream,
                    ServiceState::OutboundInitiated,
                );
                assert(self@ =~= old(self)@.insert(peer, ServiceState::OutboundInitiated));
                Some(action)
            },
            Some(ServiceState::InboundReceived) => {
                let action = self.send_outbound_handshake(
                    peer,
                    substream,
                    ServiceState::OutboundInitiatedInboundReceived,
                );
                assert(self@ =~= old(self)@.insert(
                    peer,
                    ServiceState::OutboundInitiatedInboundReceived,
                ));
                Some(action)
            },
            Some(ServiceState::UnderValidation { inbound }) => {
                let next = ServiceState::OutboundInitiatedInboundUnderValidation { inbound };
                let action = self.send_outbound_handshake(peer, substream, next);
                assert(self@ =~= old(self)@.insert(peer, next));
                Some(action)
            },
            // other states are invalid
            _ => None,
        }
    }

    /// Validate inbound substream: the handshake of `peer` has come in.
    pub fn validate_inbound_substream(
        &mut self,
        peer: PeerId,
        handshake: Vec<u8>,
        inbound: S,
    ) -> (r: Option<ServiceEvent>)
        ensures
            final(self).settings() == old(self).settings(),
            match old(self).state(peer) {
                Some(state) => match validated_state(state, inbound) {
                    Some(next) => {
                        &&& final(self)@ == old(self)@.insert(peer, next)
                        &&& r == Some(ServiceEvent::SubstreamReceived { peer, handshake })
                    },
                    None => final(self)@ == old(self)@ && r is None,
                },
                None => final(self)@ == old(self)@ && r is None,
            },
    {
        let ghost before = self@;
        match self.peers.remove(&peer) {
            Some(ServiceState::InboundReceived) => {
                let _ = self.peers.insert(peer, ServiceState::UnderValidation { inbound });
                assert(self@ =~= before.insert(peer, ServiceState::UnderValidation { inbound }));
                Some(ServiceEvent::SubstreamReceived { peer, handshake })
            },
            Some(ServiceState::OutboundInitiated) => {
                let next = ServiceState::OutboundInitiatedInboundUnderValidation { inbound };
                let _ = self.peers.insert(peer, next);
                assert(self@ =~= before.insert(peer, next));
                Some(ServiceEvent::SubstreamReceived { peer, handshake })
            },
            // any other state is invalid
            Some(state) => {
                let _ = self.peers.insert(peer, state);
                assert(self@ =~= before);
                None
            },
            None => {
                assert(self@ =~= before);
                None
            },
        }
    }
}

/// Whether the handshake of a peer comes in before or after the outbound substream to it opens, the
/// inbound substream is kept and is under validation.
pub proof fn law_order_of_substreams<S>(inbound: S)
    ensures
        ({
            let outbound_first = validated_state(outbound_state::<S>(None)->Some_0, inbound);
            let validated = validated_state(ServiceState::<S>::InboundReceived, inbound);
            let inbound_first = outbound_state(validated);
            &&& validated == Some(ServiceState::UnderValidation { inbound })
            &&& outbound_first == Some(
                ServiceState::OutboundInitiatedInboundUnderValidation { inbound },
            )
            &&& inbound_first == outbound_first
        }),
        outbound_state(Some(ServiceState::<S>::InboundReceived)) == Some(
            ServiceState::<S>::OutboundInitiatedInboundReceived,
        ),
{
}

/// There is one outbound substream to a peer, and one handshake of it.
pub proof fn law_no_second_substream<S>(state: ServiceState<S>, inbound: S)
    ensures
        outbound_state(Some(state)) matches Some(next) ==> outbound_state(Some(next)) is None,
        validated_state(state, inbound) matches Some(next) ==> validated_state(next, inbound) is None,
{
}

} // verus!
