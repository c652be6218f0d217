//! What the user and the bitswap protocol tell each other.

use super::content_id::{Cid, CidView};
use crate::peer_id::PeerId;
use vstd::prelude::*;

verus! {

/// What is wanted of a block.
#[derive(Clone, Copy, Debug, PartialEq, Eq, Structural)]
pub enum WantType {
    /// The block.
    Block,
    /// Whether the peer has it.
    Have,
}

/// Whether a peer has a block.
#[derive(Clone, Copy, Debug, PartialEq, Eq, Structural)]
pub enum BlockPresenceType {
    /// It has.
    Have,
    /// It has not.
    DontHave,
}

/// Response type for received bitswap request.
#[derive(Debug, PartialEq, Eq)]
pub enum ResponseType {
    /// Block.
    Block {
        /// CID.
        cid: Cid,
        /// Found block.
        block: Vec<u8>,
    },
    /// Presense.
    Presence {
        /// CID.
        cid: Cid,
        /// Whether the requested block exists or not.
        presence: BlockPresenceType,
    },
}

/// Response type, by its view.
pub enum ResponseView {
    /// Block.
    Block {
        /// CID.
        cid: CidView,
        /// Found block.
        block: Seq<u8>,
    },
    /// Presense.
    Presence {
        /// CID.
        cid: CidView,
        /// Whether the requested block exists or not.
        presence: BlockPresenceType,
    },
}

impl View for ResponseType {
    type V = ResponseView;

    open spec fn view(&self) -> ResponseView {
        match *self {
            ResponseType::Block { cid, block } => ResponseView::Block { cid: cid@, block: block@ },
            ResponseType::Presence { cid, presence } => ResponseView::Presence {
                cid: cid@,
                presence,
            },
        }
    }
}

/// Responses, by their views.
pub open spec fn response_views(responses: Seq<ResponseType>) -> Seq<ResponseView> {
    Seq::new(responses.len(), |i: int| responses[i]@)
}

/// Wanted CIDs, by their views.
pub open spec fn want_views(cids: Seq<(Cid, WantType)>) -> Seq<(CidView, WantType)> {
    Seq::new(cids.len(), |i: int| (cids[i].0@, cids[i].1))
}

/// Events emitted by the bitswap protocol.
#[derive(Debug, PartialEq, Eq)]
pub enum BitswapEvent {
    /// Bitswap request.
    Request {
        /// Peer ID.
        peer: PeerId,
        /// Requested CIDs.
        cids: Vec<(Cid, WantType)>,
    },
    /// Bitswap response.
    Response {
        /// Peer ID.
        peer: PeerId,
        /// Response entries: blocks and block presences.
        responses: Vec<ResponseType>,
    },
}

/// Events emitted by the bitswap protocol, by their views.
pub enum EventView {
    /// Bitswap request.
    Request {
        /// Peer ID.
        peer: PeerId,
        /// Requested CIDs.
        cids: Seq<(CidView, WantType)>,
    },
    /// Bitswap response.
    Response {
        /// Peer ID.
        peer: PeerId,
        /// Response entries.
        responses: Seq<ResponseView>,
    },
}

impl View for BitswapEvent {
    type V = EventView;

    open spec fn view(&self) -> EventView {
        match *self {
            BitswapEvent::Request { peer, cids } => EventView::Request {
                peer,
                cids: want_views(cids@),
            },
            BitswapEvent::Response { peer, responses } => EventView::Response {
                peer,
                responses: response_views(responses@),
            },
        }
    }
}

/// Commands sent from the user to the bitswap protocol.
#[derive(Debug, PartialEq, Eq)]
pub enum BitswapCommand {
    /// Send bitswap request.
    SendRequest {
        /// Peer ID.
        peer: PeerId,
        /// Requested CIDs.
        cids: Vec<(Cid, WantType)>,
    },
    /// Send bitswap response.
    SendResponse {
        /// Peer ID.
        peer: PeerId,
        /// CIDs.
        responses: Vec<ResponseType>,
    },
}

} // verus!
