//! Protocol-related definitions.

use crate::address::Multiaddr;
use crate::error::Error;
use crate::peer_id::PeerId;
use crate::types::{ProtocolName, SubstreamId};
use vstd::prelude::*;

pub mod connection;
pub mod libp2p;
pub mod notification;
pub mod protocol_set;
pub mod request_response;
pub mod transport_service;

verus! {

/// How the messages of a protocol are delimited.
#[derive(Clone, Copy, Debug, PartialEq, Eq, Structural)]
pub enum ProtocolCodec {
    /// Messages of a fixed size.
    Identity(usize),
    /// Messages behind their length, which may be bounded.
    UnsignedVarint(Option<usize>),
}

/// Substream direction.
#[derive(Clone, Copy, Debug, PartialEq, Eq, Structural)]
pub enum Direction {
    /// Substream was opened by the remote peer.
    Inbound,
    /// Substream was opened by the local peer.
    Outbound(SubstreamId),
}

#[allow(inconsistent_fields)]
/// Events emitted by one of the installed transports to protocol(s).
#[derive(Debug, PartialEq, Eq)]
pub enum TransportEvent<S> {
    /// Connection established to `peer`.
    ConnectionEstablished {
        /// Peer ID.
        peer: PeerId,
        /// Address of remote peer.
        address: Multiaddr,
    },
    /// Connection closed.
    ConnectionClosed {
        /// Peer ID.
        peer: PeerId,
    },
    /// Failed to dial peer.
    ///
    /// This is reported to that protocol which initiated the connection.
    DialFailure {
        /// Peer ID.
        peer: PeerId,
        /// Dialed address.
        address: Multiaddr,
    },
    /// Substream opened for `peer`.
    SubstreamOpened {
        /// Peer ID.
        peer: PeerId,
        /// Protocol name.
        ///
        /// One protocol handler may handle multiple sub-protocols or it may have aliases which
        /// should be handled by the same protocol handler. The protocol name that was used to
        /// negotiate the substream is also sent so the protocol can handle the substream
        /// appropriately.
        protocol: ProtocolName,
        /// Fallback protocol.
        fallback: Option<ProtocolName>,
        /// Substream direction.
        direction: Direction,
        /// Substream.
        substream: S,
    },
    /// Failed to open substream.
    ///
    /// Substream open failures are reported only for outbound substreams.
    SubstreamOpenFailure {
        /// Substream ID.
        substream: SubstreamId,
        /// Error that occurred when the substream was being opened.
        error: Error,
    },
}

} // verus!
