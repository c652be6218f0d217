//! The user's side of the notification protocol.

use super::types::{
    EventView, NotificationCommand, NotificationError, NotificationEvent, ValidationResult,
};
use crate::collections::{AssocMap, AssocSet};
use crate::error::Error;
use crate::peer_id::PeerId;
use crate::types;
use crate::types::ProtocolName;
use vstd::prelude::*;

verus! {

/// Notification events, of which one comes with the sink of the stream.
#[derive(Debug, PartialEq, Eq)]
pub enum InnerNotificationEvent<K> {
    /// Validate substream.
    ValidateSubstream {
        /// Protocol name.
        protocol: ProtocolName,
        /// Fallback name, if the substream was negotiated with one.
        fallback: Option<ProtocolName>,
        /// Peer ID.
        peer: PeerId,
        /// Handshake.
        handshake: Vec<u8>,
    },
    /// Notification stream opened.
    NotificationStreamOpened {
        /// Protocol name.
        protocol: ProtocolName,
        /// Fallback name, if the substream was negotiated with one.
        fallback: Option<ProtocolName>,
        /// Peer ID.
        peer: PeerId,
        /// Handshake.
        handshake: Vec<u8>,
        /// Notification sink.
        sink: K,
    },
    /// Notification stream closed.
    NotificationStreamClosed {
        /// Peer ID.
        peer: PeerId,
    },
    /// Failed to open notification stream.
    NotificationStreamOpenFailure {
        /// Peer ID.
        peer: PeerId,
        /// Error.
        error: NotificationError,
    },
    /// Notification received.
    NotificationReceived {
        /// Peer ID.
        peer: PeerId,
        /// Notification.
        notification: Vec<u8>,
    },
}

/// What the user learns of an event.
pub open spec fn event_view<K>(event: InnerNotificationEvent<K>) -> EventView {
    match event {
        InnerNotificationEvent::ValidateSubstream { protocol, fallback, peer, handshake } =>
            EventView::ValidateSubstream {
                protocol: protocol@,
                fallback: types::fallback_view(fallback),
                peer,
                handshake: handshake@,
            },
        InnerNotificationEvent::NotificationStreamOpened {
            protocol,
            fallback,
            peer,
            handshake,
            ..
        } => EventView::NotificationStreamOpened {
            protocol: protocol@,
            fallback: types::fallback_view(fallback),
            peer,
            handshake: handshake@,
        },
        InnerNotificationEvent::NotificationStreamClosed { peer } =>
            EventView::NotificationStreamClosed { peer },
        InnerNotificationEvent::NotificationStreamOpenFailure { peer, error } =>
            EventView::NotificationStreamOpenFailure { peer, error },
        InnerNotificationEvent::NotificationReceived { peer, notification } =>
            EventView::NotificationReceived { peer, notification: notification@ },
    }
}

/// What an event makes of the sinks of the open streams.
pub open spec fn sinks_after<K>(
    sinks: Map<PeerId, K>,
    event: InnerNotificationEvent<K>,
) -> Map<PeerId, K> {
    match event {
        InnerNotificationEvent::NotificationStreamOpened { peer, sink, .. } => sinks.insert(
            peer,
            sink,
        ),
        InnerNotificationEvent::NotificationStreamClosed { peer } => sinks.remove(peer),
        _ => sinks,
    }
}

/// How an attempt to put something into a channel went.
#[derive(Clone, Copy, Debug, PartialEq, Eq, Structural)]
pub enum TrySend {
    /// It is in the channel.
    Sent,
    /// The channel is full.
    Full,
    /// The channel is closed.
    Closed,
}

/// Send notification to peer synchronously: what the attempt to put it into the channel of the sink
/// came to.
///
/// If the channel is clogged, [`NotificationError::ChannelClogged`] is returned.
pub fn sync_notification_result(outcome: TrySend) -> (r: Result<(), NotificationError>)
    ensures
        r == (match outcome {
            TrySend::Sent => Ok::<(), NotificationError>(()),
            TrySend::Full => Err(NotificationError::ChannelClogged),
            TrySend::Closed => Err(NotificationError::NoConnection),
        }),
{
    match outcome {
        TrySend::Sent => Ok(()),
        TrySend::Full => Err(NotificationError::ChannelClogged),
        TrySend::Closed => Err(NotificationError::NoConnection),
    }
}

/// Set new handshake: what the attempt to put the command into the channel came to.
pub fn handshake_result(outcome: TrySend) -> (r: Result<(), NotificationError>)
    ensures
        r == (match outcome {
            TrySend::Sent => Ok::<(), NotificationError>(()),
            TrySend::Full => Err(NotificationError::ChannelClogged),
            TrySend::Closed => Err(NotificationError::EssentialTaskClosed),
        }),
{
    match outcome {
        TrySend::Sent => Ok(()),
        TrySend::Full => Err(NotificationError::ChannelClogged),
        TrySend::Closed => Err(NotificationError::EssentialTaskClosed),
    }
}

/// Handle allowing the user protocol to interact with the notification protocol.
///
/// It knows the sink of each open stream.
pub struct NotificationHandle<K> {
    /// Peers.
    peers: AssocMap<PeerId, K>,
}

impl<K> View for NotificationHandle<K> {
    type V = Map<PeerId, K>;

    /// The sink of each open stream.
    closed spec fn view(&self) -> Map<PeerId, K> {
        self.peers@
    }
}

impl<K> NotificationHandle<K> {
    /// Create new [`NotificationHandle`].
    pub fn new() -> (r: Self)
        ensures
            r@ == Map::<PeerId, K>::empty(),
    {
        NotificationHandle { peers: AssocMap::new() }
    }

    /// Open substream to `peer`.
    ///
    /// Returns [`Error::PeerAlreadyExists`] if substream is already open to `peer`.
    pub fn open_substream(&self, peer: PeerId) -> (r: Result<NotificationCommand, Error>)
        ensures
            r == (if self@.contains_key(peer) {
                Err::<NotificationCommand, Error>(Error::PeerAlreadyExists(peer))
            } else {
                Ok(NotificationCommand::OpenSubstream { peer })
            }),
    {
        if self.peers.contains_key(&peer) {
            return Err(Error::PeerAlreadyExists(peer));
        }
        Ok(NotificationCommand::OpenSubstream { peer })
    }

    /// Splits peers into those with an open stream and the others.
    fn split(&self, peers: Vec<PeerId>) -> (r: (AssocSet<PeerId>, AssocSet<PeerId>))
        ensures
            forall|peer: PeerId| #[trigger]
                r.0@.contains(peer) <==> peers@.contains(peer) && self@.contains_key(peer),
            forall|peer: PeerId| #[trigger]
                r.1@.contains(peer) <==> peers@.contains(peer) && !self@.contains_key(peer),
    {
        let mut open: AssocSet<PeerId> = AssocSet::new();
        let mut other: AssocSet<PeerId> = AssocSet::new();
        let mut i: usize = 0;
        while i < peers.len()
            invariant
                i <= peers@.len(),
                forall|peer: PeerId| #[trigger]
                    open@.contains(peer) <==> peers@.take(i as int).contains(peer)
                        && self@.contains_key(peer),
                forall|peer: PeerId| #[trigger]
                    other@.contains(peer) <==> peers@.take(i as int).contains(peer)
                        && !self@.contains_key(peer),
            decreases peers@.len() - i,
        {
            let peer = peers[i];
            proof {
                let now = peers@.take(i + 1);
                assert(now =~= peers@.take(i as int).push(peer));
                assert forall|p: PeerId| #[trigger]
                    now.contains(p) <==> peers@.take(i as int).contains(p) || p == peer by {
                    if peers@.take(i as int).contains(p) {
                        let j = choose|j: int| 0 <= j < i && peers@.take(i as int)[j] == p;
                        assert(now[j] == p);
                    }
                    if p == peer {
                        assert(now[i as int] == p);
                    }
                }
            }
            if self.peers.contains_key(&peer) {
                let _ = open.insert(peer);
            } else {
                let _ = other.insert(peer);
            }
            i += 1;
        }
        assert(peers@.take(i as int) =~= peers@);
        (open, other)
    }

    /// Open substreams to multiple peers: those that substreams are to be opened to.
    ///
    /// Peers who are already connected are ignored and returned as an error.
    pub fn open_substream_batch(&self, peers: Vec<PeerId>) -> (r: (
        AssocSet<PeerId>,
        Result<(), AssocSet<PeerId>>,
    ))
        ensures
            forall|peer: PeerId| #[trigger]
                r.0@.contains(peer) <==> peers@.contains(peer) && !self@.contains_key(peer),
            r.1 is Ok <==> forall|peer: PeerId| #[trigger]
                peers@.contains(peer) ==> !self@.contains_key(peer),
            r.1 matches Err(ignored) ==> forall|peer: PeerId| #[trigger]
                ignored@.contains(peer) <==> peers@.contains(peer) && self@.contains_key(peer),
    {
        let (to_ignore, to_add) = self.split(peers);
        if to_ignore.is_empty() {
            assert forall|peer: PeerId| #[trigger] peers@.contains(peer) implies !self@.contains_key(
                peer,
            ) by {
                assert(!to_ignore@.contains(peer));
            }
            (to_add, Ok(()))
        } else {
            proof {
                if forall|peer: PeerId| #[trigger]
                    peers@.contains(peer) ==> !self@.contains_key(peer) {
                    assert(to_ignore@ =~= Set::<PeerId>::empty());
                }
            }
            (to_add, Err(to_ignore))
        }
    }

    /// Close substream to `peer`.
    pub fn close_substream(&self, peer: PeerId) -> (r: Option<NotificationCommand>)
        ensures
            r == (if self@.contains_key(peer) {
                Some(NotificationCommand::CloseSubstream { peer })
            } else {
                None
            }),
    {
        if !self.peers.contains_key(&peer) {
            return None;
        }
        Some(NotificationCommand::CloseSubstream { peer })
    }

    /// Close substream to multiple peers: those whose substreams are to be closed.
    pub fn close_substream_batch(&self, peers: Vec<PeerId>) -> (r: AssocSet<PeerId>)
        ensures
            forall|peer: PeerId| #[trigger]
                r@.contains(peer) <==> peers@.contains(peer) && self@.contains_key(peer),
    {
        let (open, _) = self.split(peers);
        open
    }

    /// Set new handshake.
    pub fn set_handshake(&self, handshake: Vec<u8>) -> (r: NotificationCommand)
        ensures
            r == (NotificationCommand::SetHandshake { handshake }),
    {
        NotificationCommand::SetHandshake { handshake }
    }

    /// Send validation result to the notification protocol for the inbound substream.
    pub fn send_validation_result(&self, peer: PeerId, result: ValidationResult) -> (r:
        NotificationCommand)
        ensures
            r == (NotificationCommand::SubstreamValidated { peer, result }),
    {
        NotificationCommand::SubstreamValidated { peer, result }
    }

    /// Get the underlying notification sink for the peer.
    pub fn notification_sink(&self, peer: &PeerId) -> (r: Option<&K>)
        ensures
            match r {
                Some(sink) => self@.contains_key(*peer) && *sink == self@[*peer],
                None => !self@.contains_key(*peer),
            },
    {
        self.peers.get(peer)
    }

    /// Send synchronous notification to `peer`: `outcome` is what the attempt to put it into the
    /// channel of the sink came to, if there is a sink.
    ///
    /// A notification to a peer without an open stream is dropped.
    pub fn send_sync_notification(&self, peer: PeerId, outcome: TrySend) -> (r: Result<
        (),
        NotificationError,
    >)
        ensures
            r == (if !self@.contains_key(peer) {
                Ok::<(), NotificationError>(())
            } else {
                match outcome {
                    TrySend::Sent => Ok(()),
                    TrySend::Full => Err(NotificationError::ChannelClogged),
                    TrySend::Closed => Err(NotificationError::NoConnection),
                }
            }),
    {
        if self.peers.contains_key(&peer) {
            sync_notification_result(outcome)
        } else {
            Ok(())
        }
    }

    /// Send asynchronous notification to `peer`: `sent` says whether the channel of the sink has
    /// taken it, if there is a sink.
    ///
    /// Returns [`Error::PeerDoesntExist`] if the connection has been closed.
    pub fn send_async_notification(&self, peer: PeerId, sent: bool) -> (r: Result<(), Error>)
        ensures
            r == (if self@.contains_key(peer) && sent {
                Ok::<(), Error>(())
            } else {
                Err(Error::PeerDoesntExist(peer))
            }),
    {
        if self.peers.contains_key(&peer) && sent {
            Ok(())
        } else {
            Err(Error::PeerDoesntExist(peer))
        }
    }

    /// Handle the next event of the protocol: what the user learns of it.
    pub fn on_event(&mut self, event: InnerNotificationEvent<K>) -> (r: NotificationEvent)
        ensures
            final(self)@ == sinks_after(old(self)@, event),
            r@ == event_view(event),
    {
        match event {
            InnerNotificationEvent::NotificationStreamOpened {
                protocol,
                fallback,
                peer,
                handshake,
                sink,
            } => {
                let _ = self.peers.insert(peer, sink);
                NotificationEvent::NotificationStreamOpened { protocol, fallback, peer, handshake }
            },
            InnerNotificationEvent::NotificationStreamClosed { peer } => {
                let _ = self.peers.remove(&peer);
                NotificationEvent::NotificationStreamClosed { peer }
            },
            InnerNotificationEvent::ValidateSubstream { protocol, fallback, peer, handshake } => {
                NotificationEvent::ValidateSubstream { protocol, fallback, peer, handshake }
            },
            InnerNotificationEvent::NotificationStreamOpenFailure { peer, error } => {
                NotificationEvent::NotificationStreamOpenFailure { peer, error }
            },
            InnerNotificationEvent::NotificationReceived { peer, notification } => {
                NotificationEvent::NotificationReceived { peer, notification }
            },
        }
    }
}

/// The sink of a stream is known from the time that it opens to the time that it closes, and no
/// event touches the sink of another peer.
pub proof fn law_sinks_of_open_streams<K>(
    sinks: Map<PeerId, K>,
    event: InnerNotificationEvent<K>,
    peer: PeerId,
)
    ensures
        (event matches InnerNotificationEvent::NotificationStreamOpened { peer: p, .. } && p == peer)
            ==> sinks_after(sinks, event).contains_key(peer) && sinks_after(sinks, event)[peer]
            == event->NotificationStreamOpened_sink,
        event == (InnerNotificationEvent::<K>::NotificationStreamClosed { peer }) ==> !sinks_after(
            sinks,
            event,
        ).contains_key(peer),
        match event {
            InnerNotificationEvent::NotificationStreamOpened { peer: p, .. } => p != peer,
            InnerNotificationEvent::NotificationStreamClosed { peer: p } => p != peer,
            _ => true,
        } ==> sinks_after(sinks, event).contains_key(peer) == sinks.contains_key(peer)
            && sinks_after(sinks, event)[peer] == sinks[peer],
{
}

/// The user learns of every event what it says.
pub proof fn law_user_learns_of_events<K>(event: InnerNotificationEvent<K>, told: NotificationEvent)
    requires
        told@ == event_view(event),
    ensures
        match event {
            InnerNotificationEvent::ValidateSubstream { protocol, fallback, peer, handshake } => told
                matches NotificationEvent::ValidateSubstream {
                protocol: n,
                fallback: f,
                peer: p,
                handshake: h,
            } && n@ == protocol@ && types::fallback_view(f) == types::fallback_view(fallback) && p
                == peer && h@ == handshake@,
            InnerNotificationEvent::NotificationStreamOpened {
                protocol,
                fallback,
                peer,
                handshake,
                ..
            } => told matches NotificationEvent::NotificationStreamOpened {
                protocol: n,
                fallback: f,
                peer: p,
                handshake: h,
            } && n@ == protocol@ && types::fallback_view(f) == types::fallback_view(fallback) && p
                == peer && h@ == handshake@,
            InnerNotificationEvent::NotificationStreamClosed { peer } => told
                == (NotificationEvent::NotificationStreamClosed { peer }),
            InnerNotificationEvent::NotificationStreamOpenFailure { peer, error } => told
                == (NotificationEvent::NotificationStreamOpenFailure { peer, error }),
            InnerNotificationEvent::NotificationReceived { peer, notification } => told
                matches NotificationEvent::NotificationReceived { peer: p, notification: n } && p
                == peer && n@ == notification@,
        },
{
}

} // verus!
