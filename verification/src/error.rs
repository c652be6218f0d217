//! Errors.

use crate::peer_id::PeerId;
use crate::types::{ProtocolName, SubstreamId};
use vstd::prelude::*;

verus! {

/// What can go wrong on a substream.
#[derive(Clone, Copy, Debug, PartialEq, Eq, Structural)]
pub enum SubstreamError {
    /// The connection is closed.
    ConnectionClosed,
    /// The channel to the connection is full.
    ChannelClogged,
    /// Reading failed, on a substream whose identifier is given where it is known.
    ReadFailure(Option<SubstreamId>),
    /// Writing failed.
    WriteFailure,
    /// The protocol of the substream could not be negotiated.
    NegotiationError(NegotiationError),
}

/// Why a protocol could not be negotiated.
#[derive(Clone, Copy, Debug, PartialEq, Eq, Structural)]
pub enum NegotiationError {
    /// The nodes have no protocol in common.
    MultistreamSelectFailed,
    /// The nodes did not follow the rules of the negotiation.
    ProtocolError,
    /// The negotiation took too long.
    Timeout,
}

/// What can go wrong.
#[derive(Debug, PartialEq, Eq)]
pub enum Error {
    /// The peer is not known.
    PeerDoesntExist(PeerId),
    /// The peer is known already.
    PeerAlreadyExists(PeerId),
    /// The protocol is not supported.
    ProtocolNotSupported(ProtocolName),
    /// The substream failed.
    SubstreamError(SubstreamError),
    /// The connection is closed.
    ConnectionClosed,
    /// The channel is full.
    ChannelClogged,
    /// The receiving task is gone.
    EssentialTaskClosed,
    /// The peer could not be dialed.
    DialError,
    /// The data is not valid.
    InvalidData,
    /// The request does not fit the state.
    InvalidState,
    /// The operation took too long.
    Timeout,
    /// The peer has been connected to already.
    AlreadyConnected,
    /// The substream is not known.
    SubstreamDoesntExist,
}

/// Why text is not a peer identity.
#[derive(Clone, Copy, Debug, PartialEq, Eq, Structural)]
pub enum ParseError {
    /// The text is not base-58.
    B58,
    /// The bytes are not a multihash that a peer identity can have.
    MultiHash,
}

} // verus!
