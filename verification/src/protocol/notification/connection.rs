//! Bidirectional substream pair representing a connection to a remote peer.

use crate::peer_id::PeerId;
use vstd::prelude::*;

verus! {

/// Notify [`NotificationProtocol`](super::NotificationProtocol) that the connection was closed.
#[derive(Clone, Copy, Debug, PartialEq, Eq, Structural)]
pub enum NotifyProtocol {
    /// Notify the protocol handler.
    Yes,
    /// Do not notify protocol handler.
    No,
}

/// What happens next in the life of a connection.
#[derive(Debug, PartialEq, Eq)]
pub enum ConnectionInput {
    /// The protocol closes the connection.
    Shutdown,
    /// The inbound substream was closed or failed.
    InboundClosed,
    /// A notification has come in.
    Inbound {
        /// Notification.
        notification: Vec<u8>,
    },
    /// Something was read from the outbound substream, over which nothing should come in.
    OutboundData,
    /// The outbound substream was closed.
    OutboundClosed,
    /// The user has a notification for the peer.
    Notification {
        /// Notification.
        notification: Vec<u8>,
    },
    /// The user has given the notification sink up.
    SinkClosed,
    /// A notification could not be sent.
    SendFailed,
}

/// What is left to do for the caller.
#[derive(Debug, PartialEq, Eq)]
pub enum ConnectionAction {
    /// Report a notification to the user.
    ReportNotification {
        /// Peer ID.
        peer: PeerId,
        /// Notification.
        notification: Vec<u8>,
    },
    /// Send a notification over the outbound substream.
    Send {
        /// Notification.
        notification: Vec<u8>,
    },
    /// Close the inbound substream.
    CloseInbound,
    /// Close the outbound substream.
    CloseOutbound,
    /// Tell the protocol that the connection is closed.
    NotifyProtocol {
        /// Peer ID.
        peer: PeerId,
    },
    /// Report to the user that the notification stream is closed. Nothing follows.
    ReportClosed {
        /// Peer ID.
        peer: PeerId,
    },
}

/// What is left to do when a connection closes.
pub open spec fn closing(peer: PeerId, notify_protocol: NotifyProtocol) -> Seq<ConnectionAction> {
    let closed = seq![ConnectionAction::CloseInbound, ConnectionAction::CloseOutbound];
    let notified = match notify_protocol {
        NotifyProtocol::Yes => closed.push(ConnectionAction::NotifyProtocol { peer }),
        NotifyProtocol::No => closed,
    };
    notified.push(ConnectionAction::ReportClosed { peer })
}

/// What is left to do after an input.
pub open spec fn on_input(peer: PeerId, input: ConnectionInput) -> Seq<ConnectionAction> {
    match input {
        ConnectionInput::Shutdown => closing(peer, NotifyProtocol::No),
        ConnectionInput::InboundClosed => closing(peer, NotifyProtocol::Yes),
        ConnectionInput::Inbound { notification } => seq![
            ConnectionAction::ReportNotification { peer, notification },
        ],
        ConnectionInput::OutboundData => Seq::empty(),
        ConnectionInput::OutboundClosed => closing(peer, NotifyProtocol::Yes),
        ConnectionInput::Notification { notification } => seq![
            ConnectionAction::Send { notification },
        ],
        ConnectionInput::SinkClosed => closing(peer, NotifyProtocol::Yes),
        ConnectionInput::SendFailed => closing(peer, NotifyProtocol::Yes),
    }
}

/// Bidirectional substream pair representing a connection to a remote peer.
#[derive(Debug, PartialEq, Eq)]
pub struct Connection {
    /// Remote peer ID.
    pub peer: PeerId,
}

impl Connection {
    /// Create new [`Connection`].
    pub fn new(peer: PeerId) -> (r: Self)
        ensures
            r.peer == peer,
    {
        Connection { peer }
    }

    /// Connection closed, clean up state.
    ///
    /// If [`NotificationProtocol`](super::NotificationProtocol) was the one that initiated
    /// shut down, it's not notified of connection getting closed.
    pub fn close_connection(&self, notify_protocol: NotifyProtocol) -> (r: Vec<ConnectionAction>)
        ensures
            r@ == closing(self.peer, notify_protocol),
    {
        let mut actions: Vec<ConnectionAction> = Vec::new();
        actions.push(ConnectionAction::CloseInbound);
        actions.push(ConnectionAction::CloseOutbound);
        if let NotifyProtocol::Yes = notify_protocol {
            actions.push(ConnectionAction::NotifyProtocol { peer: self.peer });
        }
        actions.push(ConnectionAction::ReportClosed { peer: self.peer });
        assert(actions@ =~= closing(self.peer, notify_protocol));
        actions
    }

    /// Handle the next input.
    pub fn next_event(&self, input: ConnectionInput) -> (r: Vec<ConnectionAction>)
        ensures
            r@ == on_input(self.peer, input),
    {
        let ghost expected = on_input(self.peer, input);
        let mut actions: Vec<ConnectionAction> = Vec::new();
        match input {
            ConnectionInput::Shutdown => {
                return self.close_connection(NotifyProtocol::No);
            },
            ConnectionInput::Inbound { notification } => {
                actions.push(
                    ConnectionAction::ReportNotification { peer: self.peer, notification },
                );
            },
            ConnectionInput::OutboundData => {},
            ConnectionInput::Notification { notification } => {
                actions.push(ConnectionAction::Send { notification });
            },
            ConnectionInput::InboundClosed
            | ConnectionInput::OutboundClosed
            | ConnectionInput::SinkClosed
            | ConnectionInput::SendFailed => {
                return self.close_connection(NotifyProtocol::Yes);
            },
        }
        assert(actions@ =~= expected);
        actions
    }
}

/// Whether a connection is over.
pub open spec fn is_over(actions: Seq<ConnectionAction>) -> bool {
    actions.len() > 0 && actions.last() is ReportClosed
}

/// When a connection is over, both substreams are closed and the user learns of it, and the protocol
/// learns of it unless it has closed the connection itself.
pub proof fn law_end_reported(peer: PeerId, input: ConnectionInput)
    requires
        is_over(on_input(peer, input)),
    ensures
        ({
            let actions = on_input(peer, input);
            &&& actions[0] is CloseInbound
            &&& actions[1] is CloseOutbound
            &&& actions.last() == ConnectionAction::ReportClosed { peer }
            &&& actions.contains(ConnectionAction::NotifyProtocol { peer }) <==> !(
            input is Shutdown)
        }),
{
    let actions = on_input(peer, input);
    if !(input is Shutdown) {
        assert(actions[2] == ConnectionAction::NotifyProtocol { peer });
    }
}

/// What comes in goes to the user, and what the user has for the peer goes out, as it is. What
/// comes in over the outbound substream is ignored.
pub proof fn law_notifications_pass(peer: PeerId, notification: Vec<u8>)
    ensures
        on_input(peer, ConnectionInput::Inbound { notification }) == seq![
            ConnectionAction::ReportNotification { peer, notification },
        ],
        on_input(peer, ConnectionInput::Notification { notification }) == seq![
            ConnectionAction::Send { notification },
        ],
        on_input(peer, ConnectionInput::OutboundData).len() == 0,
{
}

/// A connection is over when the protocol closes it, when a substream is closed or fails, and when
/// the user gives the sink up: both substreams are closed, the protocol is told unless it knows, and
/// the user learns of it last.
pub proof fn law_connection_ends(peer: PeerId, input: ConnectionInput)
    requires
        !(input is Inbound) && !(input is Notification) && !(input is OutboundData),
    ensures
        on_input(peer, input) =~= if input is Shutdown {
            seq![
                ConnectionAction::CloseInbound,
                ConnectionAction::CloseOutbound,
                ConnectionAction::ReportClosed { peer },
            ]
        } else {
            seq![
                ConnectionAction::CloseInbound,
                ConnectionAction::CloseOutbound,
                ConnectionAction::NotifyProtocol { peer },
                ConnectionAction::ReportClosed { peer },
            ]
        },
{
}

} // verus!
