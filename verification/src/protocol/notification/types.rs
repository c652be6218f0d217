//! Events, commands and errors of the notification protocol.

use crate::peer_id::PeerId;
use crate::types;
use crate::types::ProtocolName;
use vstd::prelude::*;

verus! {

/// Default channel size for synchronous notifications.
pub const SYNC_CHANNEL_SIZE: usize = 16;

/// Default channel size for asynchronous notifications.
pub const ASYNC_CHANNEL_SIZE: usize = 8;

/// Validation result.
#[derive(Clone, Copy, Debug, PartialEq, Eq, Structural)]
pub enum ValidationResult {
    /// Accept the inbound substream.
    Accept,
    /// Reject the inbound substream.
    Reject,
}

/// Notification error.
#[derive(Clone, Copy, Debug, PartialEq, Eq, Structural)]
pub enum NotificationError {
    /// Remote rejected the substream.
    Rejected,
    /// Connection to peer doesn't exist.
    NoConnection,
    /// Synchronous notification channel is clogged.
    ChannelClogged,
    /// The notification protocol has exited.
    EssentialTaskClosed,
}

/// Notification events.
#[derive(Debug, PartialEq, Eq)]
pub enum NotificationEvent {
    /// Validate substream.
    ValidateSubstream {
        /// Protocol name.
        protocol: ProtocolName,
        /// Fallback name, if the substream was negotiated with one.
        fallback: Option<ProtocolName>,
        /// Peer ID.
        peer: PeerId,
        /// Handshake.
        handshake: Vec<u8>,
    },
    /// Notification stream opened.
    NotificationStreamOpened {
        /// Protocol name.
        protocol: ProtocolName,
        /// Fallback name, if the substream was negotiated with one.
        fallback: Option<ProtocolName>,
        /// Peer ID.
        peer: PeerId,
        /// Handshake.
        handshake: Vec<u8>,
    },
    /// Notification stream closed.
    NotificationStreamClosed {
        /// Peer ID.
        peer: PeerId,
    },
    /// Failed to open notification stream.
    NotificationStreamOpenFailure {
        /// Peer ID.
        peer: PeerId,
        /// Error.
        error: NotificationError,
    },
    /// Notification received.
    NotificationReceived {
        /// Peer ID.
        peer: PeerId,
        /// Notification.
        notification: Vec<u8>,
    },
}

/// A notification event, with names and bytes by their views.
pub enum EventView {
    /// Validate substream.
    ValidateSubstream {
        /// Protocol name.
        protocol: Seq<char>,
        /// Fallback name.
        fallback: Option<Seq<char>>,
        /// Peer ID.
        peer: PeerId,
        /// Handshake.
        handshake: Seq<u8>,
    },
    /// Notification stream opened.
    NotificationStreamOpened {
        /// Protocol name.
        protocol: Seq<char>,
        /// Fallback name.
        fallback: Option<Seq<char>>,
        /// Peer ID.
        peer: PeerId,
        /// Handshake.
        handshake: Seq<u8>,
    },
    /// Notification stream closed.
    NotificationStreamClosed {
        /// Peer ID.
        peer: PeerId,
    },
    /// Failed to open notification stream.
    NotificationStreamOpenFailure {
        /// Peer ID.
        peer: PeerId,
        /// Error.
        error: NotificationError,
    },
    /// Notification received.
    NotificationReceived {
        /// Peer ID.
        peer: PeerId,
        /// Notification.
        notification: Seq<u8>,
    },
}

impl View for NotificationEvent {
    type V = EventView;

    open spec fn view(&self) -> EventView {
        match *self {
            NotificationEvent::ValidateSubstream { protocol, fallback, peer, handshake } =>
                EventView::ValidateSubstream {
                    protocol: protocol@,
                    fallback: types::fallback_view(fallback),
                    peer,
                    handshake: handshake@,
                },
            NotificationEvent::NotificationStreamOpened { protocol, fallback, peer, handshake } =>
                EventView::NotificationStreamOpened {
                    protocol: protocol@,
                    fallback: types::fallback_view(fallback),
                    peer,
                    handshake: handshake@,
                },
            NotificationEvent::NotificationStreamClosed { peer } =>
                EventView::NotificationStreamClosed { peer },
            NotificationEvent::NotificationStreamOpenFailure { peer, error } =>
                EventView::NotificationStreamOpenFailure { peer, error },
            NotificationEvent::NotificationReceived { peer, notification } =>
                EventView::NotificationReceived { peer, notification: notification@ },
        }
    }
}

/// Notification commands sent by the user to the protocol.
#[derive(Debug, PartialEq, Eq)]
pub enum NotificationCommand {
    /// Open substream to peer.
    OpenSubstream {
        /// Peer ID.
        peer: PeerId,
    },
    /// Close substream to peer.
    CloseSubstream {
        /// Peer ID.
        peer: PeerId,
    },
    /// Set handshake.
    SetHandshake {
        /// Handshake.
        handshake: Vec<u8>,
    },
    /// Send validation result for the inbound protocol.
    SubstreamValidated {
        /// Peer ID.
        peer: PeerId,
        /// Validation result.
        result: ValidationResult,
    },
}

} // verus!
