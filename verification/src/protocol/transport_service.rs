//! What a protocol sees of the connections to its peers.

use crate::address;
use crate::address::{known_addresses, Multiaddr};
use crate::collections::{AssocMap, MapKey};
use crate::error::Error;
use crate::peer_id::PeerId;
use crate::protocol::connection;
use crate::protocol::connection::{
    copy_names, ConnectionHandle, ConnectionType, Permit, ProtocolCommand,
};
use crate::protocol::{Direction, TransportEvent};
use crate::types::{ConnectionId, ProtocolName, SubstreamId};
use vstd::multiset::Multiset;
use vstd::prelude::*;

verus! {

/// Default keep-alive timeout, in nanoseconds.
pub const KEEP_ALIVE: u64 = 5_000_000_000;

/// Events emitted by the underlying transport protocols.
#[allow(inconsistent_fields)]
#[derive(Debug, PartialEq, Eq)]
pub enum InnerTransportEvent<S> {
    /// Connection established to `peer`.
    ConnectionEstablished {
        /// Peer ID.
        peer: PeerId,
        /// Connection ID.
        connection: ConnectionId,
        /// Address of remote peer.
        address: Multiaddr,
        /// Handle for communicating with the connection.
        sender: ConnectionHandle,
    },
    /// Connection closed.
    ConnectionClosed {
        /// Peer ID.
        peer: PeerId,
        /// Connection ID.
        connection: ConnectionId,
    },
    /// Failed to dial peer.
    ///
    /// This is reported to that protocol which initiated the connection.
    DialFailure {
        /// Peer ID.
        peer: PeerId,
        /// Dialed address.
        address: Multiaddr,
    },
    /// Substream opened for `peer`.
    SubstreamOpened {
        /// Peer ID.
        peer: PeerId,
        /// Protocol name.
        ///
        /// One protocol handler may handle multiple sub-protocols (such as `/ipfs/identify/1.0.0`
        /// and `/ipfs/identify/push/1.0.0`) or it may have aliases which should be handled by
        /// the same protocol handler. When the substream is sent from transport to the protocol
        /// handler, the protocol name that was used to negotiate the substream is also sent so
        /// the protocol can handle the substream appropriately.
        protocol: ProtocolName,
        /// Fallback name.
        ///
        /// If the substream was negotiated using a fallback name of the main protocol,
        /// `fallback` is `Some`.
        fallback: Option<ProtocolName>,
        /// Substream direction.
        ///
        /// Outbound substreams also contain the substream ID which allows the protocol to
        /// distinguish between different outbound substreams.
        direction: Direction,
        /// Substream.
        substream: S,
    },
    /// Failed to open substream.
    ///
    /// Substream open failures are reported only for outbound substreams.
    SubstreamOpenFailure {
        /// Substream ID.
        substream: SubstreamId,
        /// Error that occurred when the substream was being opened.
        error: Error,
    },
}

/// What a protocol learns of an event.
pub open spec fn as_transport_event<S>(event: InnerTransportEvent<S>) -> TransportEvent<S> {
    match event {
        InnerTransportEvent::ConnectionEstablished { peer, address, .. } =>
            TransportEvent::ConnectionEstablished { peer, address },
        InnerTransportEvent::ConnectionClosed { peer, .. } => TransportEvent::ConnectionClosed {
            peer,
        },
        InnerTransportEvent::DialFailure { peer, address } => TransportEvent::DialFailure {
            peer,
            address,
        },
        InnerTransportEvent::SubstreamOpened { peer, protocol, fallback, direction, substream } =>
            TransportEvent::SubstreamOpened { peer, protocol, fallback, direction, substream },
        InnerTransportEvent::SubstreamOpenFailure { substream, error } =>
            TransportEvent::SubstreamOpenFailure { substream, error },
    }
}

impl<S> vstd::std_specs::convert::FromSpecImpl<InnerTransportEvent<S>> for TransportEvent<S> {
    open spec fn obeys_from_spec() -> bool {
        true
    }

    open spec fn from_spec(event: InnerTransportEvent<S>) -> Self {
        as_transport_event(event)
    }
}

impl<S> From<InnerTransportEvent<S>> for TransportEvent<S> {
    fn from(event: InnerTransportEvent<S>) -> (r: Self) {
        match event {
            InnerTransportEvent::ConnectionEstablished { peer, address, .. } => {
                TransportEvent::ConnectionEstablished { peer, address }
            },
            InnerTransportEvent::ConnectionClosed { peer, .. } => {
                TransportEvent::ConnectionClosed { peer }
            },
            InnerTransportEvent::DialFailure { peer, address } => {
                TransportEvent::DialFailure { peer, address }
            },
            InnerTransportEvent::SubstreamOpened {
                peer,
                protocol,
                fallback,
                direction,
                substream,
            } => {
                TransportEvent::SubstreamOpened { peer, protocol, fallback, direction, substream }
            },
            InnerTransportEvent::SubstreamOpenFailure { substream, error } => {
                TransportEvent::SubstreamOpenFailure { substream, error }
            },
        }
    }
}

/// Connection context for the peer.
///
/// Each peer is allowed to have at most two connections open. The first open connection is the
/// primary connections which the local node uses to open substreams to remote. Secondary connection
/// may be open if local and remote opened connections at the same time.
///
/// Secondary connection may be promoted to a primary connection if the primary connections closes
/// while the secondary connections remains open.
#[derive(Clone, Copy, Debug, PartialEq, Eq, Structural)]
pub struct ConnectionContext {
    /// Primary connection.
    pub primary: ConnectionHandle,
    /// Secondary connection, if it exists.
    pub secondary: Option<ConnectionHandle>,
}

/// A handle that no longer keeps its connection open.
pub open spec fn inactive(handle: ConnectionHandle) -> ConnectionHandle {
    ConnectionHandle { connection: ConnectionType::Inactive, ..handle }
}

impl ConnectionContext {
    /// Create new [`ConnectionContext`].
    pub fn new(primary: ConnectionHandle) -> (r: Self)
        ensures
            r == (ConnectionContext { primary, secondary: None }),
    {
        ConnectionContext { primary, secondary: None }
    }

    /// The context with a connection downgraded, and whether that has been active.
    pub open spec fn downgraded(self, connection_id: ConnectionId) -> (Self, bool) {
        if self.primary.connection_id == connection_id {
            (
                ConnectionContext { primary: inactive(self.primary), ..self },
                self.primary.connection is Active,
            )
        } else {
            match self.secondary {
                Some(handle) => if handle.connection_id == connection_id {
                    (
                        ConnectionContext { secondary: Some(inactive(handle)), ..self },
                        handle.connection is Active,
                    )
                } else {
                    (self, false)
                },
                None => (self, false),
            }
        }
    }

    /// Downgrade connection to non-active which means it will be closed
    /// if there are no substreams open over it, and say whether it has been active.
    pub fn downgrade(&mut self, connection_id: &ConnectionId) -> (r: bool)
        ensures
            (*final(self), r) == old(self).downgraded(*connection_id),
    {
        if self.primary.connection_id().same(connection_id) {
            return self.primary.close();
        }
        if let Some(handle) = self.secondary {
            if handle.connection_id().same(connection_id) {
                let mut handle = handle;
                let active = handle.close();
                self.secondary = Some(handle);
                return active;
            }
        }
        false
    }
}

/// What is left to do for the caller.
#[derive(Debug, PartialEq, Eq)]
pub enum ServiceAction<S> {
    /// Report an event to the protocol.
    Report(TransportEvent<S>),
    /// Tell when the keep-alive timeout of a connection is over.
    StartKeepAlive {
        /// Peer ID.
        peer: PeerId,
        /// Connection ID.
        connection: ConnectionId,
    },
    /// No longer keep a connection open, unless there are substreams over it.
    Downgrade {
        /// Connection ID.
        connection: ConnectionId,
    },
    /// Give the handle of a connection up.
    Drop {
        /// Connection ID.
        connection: ConnectionId,
    },
}

/// What happens next.
#[derive(Debug, PartialEq, Eq)]
pub enum ServiceInput<S> {
    /// An event of the transports and connections.
    Event(InnerTransportEvent<S>),
    /// The keep-alive timeout of a connection is over.
    KeepAliveTimeout {
        /// Peer ID.
        peer: PeerId,
        /// Connection ID.
        connection: ConnectionId,
    },
}

/// The connections and the keep-alive timeouts that are running.
#[verifier::ext_equal]
pub struct ServiceView {
    /// Open connections.
    pub connections: Map<PeerId, ConnectionContext>,
    /// Pending keep-alive timeouts.
    pub keep_alive_timeouts: Multiset<(PeerId, ConnectionId)>,
}

impl ServiceView {
    /// A connection to `peer` is established.
    pub open spec fn on_connection_established<S>(
        self,
        peer: PeerId,
        address: Multiaddr,
        connection: ConnectionId,
        handle: ConnectionHandle,
    ) -> (Self, Seq<ServiceAction<S>>) {
        let started = self.keep_alive_timeouts.insert((peer, connection));
        if !self.connections.contains_key(peer) {
            (
                ServiceView {
                    connections: self.connections.insert(
                        peer,
                        ConnectionContext { primary: handle, secondary: None },
                    ),
                    keep_alive_timeouts: started,
                },
                seq![
                    ServiceAction::StartKeepAlive { peer, connection },
                    ServiceAction::Report(TransportEvent::ConnectionEstablished { peer, address }),
                ],
            )
        } else if self.connections[peer].secondary is None {
            (
                ServiceView {
                    connections: self.connections.insert(
                        peer,
                        ConnectionContext { secondary: Some(handle), ..self.connections[peer] },
                    ),
                    keep_alive_timeouts: started,
                },
                seq![ServiceAction::StartKeepAlive { peer, connection }],
            )
        } else {
            (self, seq![ServiceAction::Drop { connection }])
        }
    }

    /// A connection to `peer` is closed.
    pub open spec fn on_connection_closed<S>(self, peer: PeerId, connection: ConnectionId) -> (
        Self,
        Seq<ServiceAction<S>>,
    ) {
        if !self.connections.contains_key(peer) {
            (self, Seq::empty())
        } else {
            let context = self.connections[peer];
            if context.primary.connection_id == connection {
                match context.secondary {
                    None => (
                        ServiceView { connections: self.connections.remove(peer), ..self },
                        seq![
                            ServiceAction::Drop { connection },
                            ServiceAction::Report(TransportEvent::ConnectionClosed { peer }),
                        ],
                    ),
                    Some(handle) => (
                        ServiceView {
                            connections: self.connections.insert(
                                peer,
                                ConnectionContext { primary: handle, secondary: None },
                            ),
                            ..self
                        },
                        seq![ServiceAction::Drop { connection }],
                    ),
                }
            } else if context.secondary matches Some(handle) && handle.connection_id
                == connection {
                (
                    ServiceView {
                        connections: self.connections.insert(
                            peer,
                            ConnectionContext { secondary: None, ..context },
                        ),
                        ..self
                    },
                    seq![ServiceAction::Drop { connection }],
                )
            } else {
                // the connection was ignored when it was established
                (self, Seq::empty())
            }
        }
    }

    /// The keep-alive timeout of a connection is over.
    pub open spec fn on_keep_alive_timeout<S>(self, peer: PeerId, connection: ConnectionId) -> (
        Self,
        Seq<ServiceAction<S>>,
    ) {
        let over = self.keep_alive_timeouts.remove((peer, connection));
        if self.connections.contains_key(peer) {
            let (context, active) = self.connections[peer].downgraded(connection);
            (
                ServiceView {
                    connections: self.connections.insert(peer, context),
                    keep_alive_timeouts: over,
                },
                if active {
                    seq![ServiceAction::Downgrade { connection }]
                } else {
                    Seq::empty()
                },
            )
        } else {
            (ServiceView { keep_alive_timeouts: over, ..self }, Seq::empty())
        }
    }

    /// What an input does.
    pub open spec fn on_input<S>(self, input: ServiceInput<S>) -> (Self, Seq<ServiceAction<S>>) {
        match input {
            ServiceInput::Event(event) => match event {
                InnerTransportEvent::ConnectionEstablished { peer, connection, address, sender } =>
                    self.on_connection_established(peer, address, connection, sender),
                InnerTransportEvent::ConnectionClosed { peer, connection } =>
                    self.on_connection_closed(peer, connection),
                _ => (self, seq![ServiceAction::Report(as_transport_event(event))]),
            },
            ServiceInput::KeepAliveTimeout { peer, connection } => self.on_keep_alive_timeout(
                peer,
                connection,
            ),
        }
    }
}

/// Provides an interfaces for protocols to interact with the underlying transport protocols.
pub struct TransportService {
    /// Local peer ID.
    local_peer_id: PeerId,
    /// Protocol.
    protocol: ProtocolName,
    /// Fallback names for the protocol.
    fallback_names: Vec<ProtocolName>,
    /// Open connections.
    connections: AssocMap<PeerId, ConnectionContext>,
    /// Close the connection if no substreams are open within this time frame, in nanoseconds.
    keep_alive: u64,
    /// Pending keep-alive timeouts.
    keep_alive_timeouts: Vec<(PeerId, ConnectionId)>,
}

impl View for TransportService {
    type V = ServiceView;

    closed spec fn view(&self) -> ServiceView {
        ServiceView {
            connections: self.connections@,
            keep_alive_timeouts: self.keep_alive_timeouts@.to_multiset(),
        }
    }
}

/// What a service is made with.
pub struct ServiceSettings {
    /// Local peer ID.
    pub local_peer_id: PeerId,
    /// Protocol.
    pub protocol: Seq<char>,
    /// Fallback names for the protocol.
    pub fallback_names: Seq<Seq<char>>,
    /// Keep-alive timeout, in nanoseconds.
    pub keep_alive: u64,
}

impl TransportService {
    /// What the service was made with.
    pub closed spec fn settings(self) -> ServiceSettings {
        ServiceSettings {
            local_peer_id: self.local_peer_id,
            protocol: self.protocol@,
            fallback_names: connection::name_views(self.fallback_names@),
            keep_alive: self.keep_alive,
        }
    }

    /// Create new [`TransportService`].
    pub fn new(
        local_peer_id: PeerId,
        protocol: ProtocolName,
        fallback_names: Vec<ProtocolName>,
        keep_alive: u64,
    ) -> (r: Self)
        ensures
            r@ == (ServiceView {
                connections: Map::empty(),
                keep_alive_timeouts: Multiset::empty(),
            }),
            r.settings() == (ServiceSettings {
                local_peer_id,
                protocol: protocol@,
                fallback_names: connection::name_views(fallback_names@),
                keep_alive,
            }),
    {
        broadcast use vstd::seq_lib::group_to_multiset_ensures;

        let r = TransportService {
            local_peer_id,
            protocol,
            fallback_names,
            connections: AssocMap::new(),
            keep_alive,
            keep_alive_timeouts: Vec::new(),
        };
        assert(r.keep_alive_timeouts@.to_multiset() =~= Multiset::empty());
        r
    }

    /// Local peer ID.
    pub fn local_peer_id(&self) -> (r: PeerId)
        ensures
            r == self.settings().local_peer_id,
    {
        self.local_peer_id
    }

    /// Keep-alive timeout, in nanoseconds.
    pub fn keep_alive(&self) -> (r: u64)
        ensures
            r == self.settings().keep_alive,
    {
        self.keep_alive
    }

    /// The connections to `peer`, if there are any.
    pub fn connection(&self, peer: &PeerId) -> (r: Option<ConnectionContext>)
        ensures
            r == (if self@.connections.contains_key(*peer) {
                Some(self@.connections[*peer])
            } else {
                None
            }),
    {
        match self.connections.get(peer) {
            Some(context) => Some(*context),
            None => None,
        }
    }

    /// The number of pending keep-alive timeouts.
    pub fn pending_keep_alive_timeouts(&self) -> (r: usize)
        ensures
            r == self@.keep_alive_timeouts.len(),
    {
        broadcast use vstd::seq_lib::group_to_multiset_ensures;

        self.keep_alive_timeouts.len()
    }

    /// Handle connection established event.
    pub fn on_connection_established<S>(
        &mut self,
        peer: PeerId,
        address: Multiaddr,
        connection_id: ConnectionId,
        handle: ConnectionHandle,
    ) -> (r: Vec<ServiceAction<S>>)
        ensures
            (final(self)@, r@) == old(self)@.on_connection_established::<S>(
                peer,
                address,
                connection_id,
                handle,
            ),
            final(self).settings() == old(self).settings(),
    {
        broadcast use vstd::seq_lib::group_to_multiset_ensures;

        let ghost expected = self@.on_connection_established::<S>(
            peer,
            address,
            connection_id,
            handle,
        );
        let mut actions: Vec<ServiceAction<S>> = Vec::new();
        match self.connection(&peer) {
            Some(context) => match context.secondary {
                Some(_) => {
                    actions.push(ServiceAction::Drop { connection: connection_id });
                },
                None => {
                    self.keep_alive_timeouts.push((peer, connection_id));
                    actions.push(
                        ServiceAction::StartKeepAlive { peer, connection: connection_id },
                    );
                    let _ = self.connections.insert(
                        peer,
                        ConnectionContext { secondary: Some(handle), ..context },
                    );
                },
            },
            None => {
                let _ = self.connections.insert(peer, ConnectionContext::new(handle));
                self.keep_alive_timeouts.push((peer, connection_id));
                actions.push(ServiceAction::StartKeepAlive { peer, connection: connection_id });
                actions.push(
                    ServiceAction::Report(TransportEvent::ConnectionEstablished { peer, address }),
                );
            },
        }
        assert(self@ =~= expected.0);
        assert(actions@ =~= expected.1);
        actions
    }

    /// Handle connection closed event.
    pub fn on_connection_closed<S>(&mut self, peer: PeerId, connection_id: ConnectionId) -> (r: Vec<
        ServiceAction<S>,
    >)
        ensures
            (final(self)@, r@) == old(self)@.on_connection_closed::<S>(peer, connection_id),
            final(self).settings() == old(self).settings(),
    {
        let ghost expected = self@.on_connection_closed::<S>(peer, connection_id);
        let mut actions: Vec<ServiceAction<S>> = Vec::new();
        let context = match self.connection(&peer) {
            Some(context) => context,
            None => {
                assert(actions@ =~= expected.1);
                return actions;
            },
        };
        // if the primary connection was closed, check if there exist a secondary connection
        // and if it does, convert the secondary connection a primary connection
        if context.primary.connection_id().same(&connection_id) {
            actions.push(ServiceAction::Drop { connection: connection_id });
            match context.secondary {
                None => {
                    let _ = self.connections.remove(&peer);
                    actions.push(ServiceAction::Report(TransportEvent::ConnectionClosed { peer }));
                },
                Some(handle) => {
                    let _ = self.connections.insert(peer, ConnectionContext::new(handle));
                },
            }
        } else if let Some(handle) = context.secondary {
            // a connection that is neither of the two was ignored when it was established
            if handle.connection_id().same(&connection_id) {
                actions.push(ServiceAction::Drop { connection: connection_id });
                let _ = self.connections.insert(
                    peer,
                    ConnectionContext { secondary: None, ..context },
                );
            }
        }
        assert(self@ =~= expected.0);
        assert(actions@ =~= expected.1);
        actions
    }

    /// Keep-alive timeout over, downgrade connection.
    pub fn on_keep_alive_timeout<S>(&mut self, peer: PeerId, connection_id: ConnectionId) -> (r:
        Vec<ServiceAction<S>>)
        ensures
            (final(self)@, r@) == old(self)@.on_keep_alive_timeout::<S>(peer, connection_id),
            final(self).settings() == old(self).settings(),
    {
        let ghost expected = self@.on_keep_alive_timeout::<S>(peer, connection_id);
        let mut actions: Vec<ServiceAction<S>> = Vec::new();
        remove_one(&mut self.keep_alive_timeouts, &peer, &connection_id);
        if let Some(context) = self.connection(&peer) {
            let mut context = context;
            if context.downgrade(&connection_id) {
                actions.push(ServiceAction::Downgrade { connection: connection_id });
            }
            let _ = self.connections.insert(peer, context);
        }
        assert(self@ =~= expected.0);
        assert(actions@ =~= expected.1);
        actions
    }

    /// Handle the next input.
    pub fn next_event<S>(&mut self, input: ServiceInput<S>) -> (r: Vec<ServiceAction<S>>)
        ensures
            (final(self)@, r@) == old(self)@.on_input(input),
            final(self).settings() == old(self).settings(),
    {
        let ghost expected = self@.on_input(input);
        match input {
            ServiceInput::Event(event) => match event {
                InnerTransportEvent::ConnectionEstablished {
                    peer,
                    address,
                    sender,
                    connection,
                } => self.on_connection_established(peer, address, connection, sender),
                InnerTransportEvent::ConnectionClosed { peer, connection } => {
                    self.on_connection_closed(peer, connection)
                },
                event => {
                    let mut actions: Vec<ServiceAction<S>> = Vec::new();
                    actions.push(ServiceAction::Report(TransportEvent::from(event)));
                    assert(actions@ =~= expected.1);
                    actions
                },
            },
            ServiceInput::KeepAliveTimeout { peer, connection } => {
                self.on_keep_alive_timeout(peer, connection)
            },
        }
    }

    /// Add one or more addresses for `peer`: those that the transports are to know.
    ///
    /// Each address ends with the identity of the peer, and the list is filtered for duplicates.
    pub fn add_known_address(&self, peer: &PeerId, addresses: Vec<Multiaddr>) -> (r: Vec<Multiaddr>)
        ensures
            address::address_views(r@).no_duplicates(),
            forall|known: Seq<u8>|
                address::address_views(r@).contains(known) <==> #[trigger] address::is_known(
                    address::address_views(addresses@),
                    *peer,
                    known,
                ),
    {
        known_addresses(peer, addresses)
    }

    /// Open substream to `peer`: the command for its primary connection.
    ///
    /// Call fails if there is no connection open to `peer`. `kept_open` says whether somebody keeps
    /// the primary connection open, and `substream_id` is the ID that the substream gets.
    pub fn open_substream(&self, peer: PeerId, kept_open: bool, substream_id: SubstreamId) -> (r:
        Result<ProtocolCommand, Error>)
        ensures
            match r {
                Ok(command) => {
                    &&& self@.connections.contains_key(peer)
                    &&& self@.connections[peer].primary.permits(kept_open)
                    &&& connection::opens_substream(
                        command,
                        self.settings().protocol,
                        self.settings().fallback_names,
                        substream_id,
                        Permit { connection_id: self@.connections[peer].primary.connection_id },
                    )
                },
                Err(error) => if !self@.connections.contains_key(peer) {
                    error == Error::PeerDoesntExist(peer)
                } else {
                    !self@.connections[peer].primary.permits(kept_open) && error
                        == Error::ConnectionClosed
                },
            },
    {
        // always prefer the primary connection
        let connection = match self.connection(&peer) {
            Some(context) => context.primary,
            None => {
                return Err(Error::PeerDoesntExist(peer));
            },
        };
        let permit = match connection.try_get_permit(kept_open) {
            Some(permit) => permit,
            None => {
                return Err(Error::ConnectionClosed);
            },
        };
        connection.open_substream(
            self.protocol.clone(),
            copy_names(&self.fallback_names),
            substream_id,
            permit,
            kept_open,
        )
    }

    /// Forcibly close the connection, even if other protocols have substreams open over it: the
    /// connections to close, of which the last one is the primary one.
    pub fn force_close(&self, peer: PeerId) -> (r: Result<Vec<ConnectionId>, Error>)
        ensures
            match r {
                Ok(connections) => {
                    &&& self@.connections.contains_key(peer)
                    &&& connections@ == (match self@.connections[peer].secondary {
                        Some(secondary) => seq![
                            secondary.connection_id,
                            self@.connections[peer].primary.connection_id,
                        ],
                        None => seq![self@.connections[peer].primary.connection_id],
                    })
                },
                Err(error) => !self@.connections.contains_key(peer) && error
                    == Error::PeerDoesntExist(peer),
            },
    {
        let context = match self.connection(&peer) {
            Some(context) => context,
            None => {
                return Err(Error::PeerDoesntExist(peer));
            },
        };
        let mut connections: Vec<ConnectionId> = Vec::new();
        if let Some(secondary) = context.secondary {
            connections.push(secondary.connection_id());
        }
        connections.push(context.primary.connection_id());
        Ok(connections)
    }
}

/// Takes one occurrence of a timeout out, if there is one.
fn remove_one(timeouts: &mut Vec<(PeerId, ConnectionId)>, peer: &PeerId, connection: &ConnectionId)
    ensures
        final(timeouts)@.to_multiset() == old(timeouts)@.to_multiset().remove((*peer, *connection)),
{
    broadcast use vstd::seq_lib::group_to_multiset_ensures;

    let ghost before = timeouts@;
    let mut i: usize = 0;
    while i < timeouts.len()
        invariant
            before == old(timeouts)@,
            timeouts@ == before,
            i <= before.len(),
            forall|j: int| 0 <= j < i ==> before[j] != (*peer, *connection),
        decreases before.len() - i,
    {
        if timeouts[i].0.same(peer) && timeouts[i].1.same(connection) {
            let _ = timeouts.remove(i);
            proof {
                assert(before[i as int] == (*peer, *connection));
                assert(timeouts@ == before.remove(i as int));
                vstd::seq_lib::to_multiset_remove(before, i as int);
            }
            return;
        }
        i += 1;
    }
    proof {
        assert(!before.contains((*peer, *connection)));
        assert(before.to_multiset().count((*peer, *connection)) == 0);
        assert(before.to_multiset().remove((*peer, *connection)) =~= before.to_multiset());
    }
}

/// Whether the user knows of a connection to `peer`.
pub open spec fn is_connected(view: ServiceView, peer: PeerId) -> bool {
    view.connections.contains_key(peer)
}

/// Whether a connection to `peer` is one of those that are known.
pub open spec fn knows_connection(
    view: ServiceView,
    peer: PeerId,
    connection: ConnectionId,
) -> bool {
    is_connected(view, peer) && (view.connections[peer].primary.connection_id == connection || (
    view.connections[peer].secondary matches Some(handle) && handle.connection_id == connection))
}

/// A protocol learns of a peer when its first connection is established and when its last connection
/// closes, and of no connection in between.
pub proof fn law_connections_reported<S>(before: ServiceView, input: ServiceInput<S>, peer: PeerId)
    ensures
        ({
            let (after, actions) = before.on_input(input);
            &&& !is_connected(before, peer) && is_connected(after, peer) <==> exists|i: int|
                0 <= i < actions.len() && (#[trigger] actions[i] matches ServiceAction::Report(
                    TransportEvent::ConnectionEstablished { peer: p, .. },
                ) && p == peer)
            &&& is_connected(before, peer) && !is_connected(after, peer) <==> exists|i: int|
                0 <= i < actions.len() && #[trigger] actions[i] == ServiceAction::<S>::Report(
                    TransportEvent::ConnectionClosed { peer },
                )
        }),
{
    let (after, actions) = before.on_input(input);
    if actions.len() > 0 {
        let first = actions[0];
        assert(actions[0] == first);
    }
    if actions.len() > 1 {
        let second = actions[1];
        assert(actions[1] == second);
    }
}

/// A third connection to a peer is ignored.
pub proof fn law_third_connection_ignored<S>(
    view: ServiceView,
    peer: PeerId,
    address: Multiaddr,
    connection: ConnectionId,
    handle: ConnectionHandle,
)
    requires
        view.connections.contains_key(peer),
        view.connections[peer].secondary is Some,
    ensures
        view.on_connection_established::<S>(peer, address, connection, handle) == (
            view,
            seq![ServiceAction::<S>::Drop { connection }],
        ),
{
}

/// When a connection closes that the peer is not known to have, such as one that was ignored, the
/// two connections of the peer stay as they are.
pub proof fn law_ignored_connection_closes<S>(
    view: ServiceView,
    peer: PeerId,
    connection: ConnectionId,
)
    requires
        !knows_connection(view, peer, connection),
    ensures
        view.on_connection_closed::<S>(peer, connection) == (view, Seq::<ServiceAction<S>>::empty()),
{
}

/// When the primary connection of a peer closes, the secondary one takes its place, and the protocol
/// does not learn of it.
pub proof fn law_secondary_takes_over<S>(view: ServiceView, peer: PeerId)
    requires
        view.connections.contains_key(peer),
        view.connections[peer].secondary is Some,
    ensures
        ({
            let context = view.connections[peer];
            let (after, actions) = view.on_connection_closed::<S>(
                peer,
                context.primary.connection_id,
            );
            &&& after.connections[peer] == ConnectionContext {
                primary: context.secondary->Some_0,
                secondary: None,
            }
            &&& actions == seq![
                ServiceAction::<S>::Drop { connection: context.primary.connection_id },
            ]
        }),
{
}

/// The keep-alive timeout of a connection that is gone changes no connection.
pub proof fn law_stale_timeout_ignored<S>(
    view: ServiceView,
    peer: PeerId,
    connection: ConnectionId,
)
    requires
        !knows_connection(view, peer, connection),
    ensures
        view.on_keep_alive_timeout::<S>(peer, connection).0.connections == view.connections,
        view.on_keep_alive_timeout::<S>(peer, connection).1.len() == 0,
{
    assert(view.on_keep_alive_timeout::<S>(peer, connection).0.connections =~= view.connections);
}

/// Everything but connections is handed on to the protocol as it is.
pub proof fn law_events_handed_on<S>(view: ServiceView, event: InnerTransportEvent<S>)
    requires
        !(event is ConnectionEstablished) && !(event is ConnectionClosed),
    ensures
        ({
            let (after, actions) = view.on_input(ServiceInput::Event(event));
            &&& after == view
            &&& actions.len() == 1
            &&& actions[0] matches ServiceAction::Report(told)
            &&& match event {
                InnerTransportEvent::DialFailure { peer, address } => told
                    == (TransportEvent::<S>::DialFailure { peer, address }),
                InnerTransportEvent::SubstreamOpened {
                    peer,
                    protocol,
                    fallback,
                    direction,
                    substream,
                } => told == (TransportEvent::SubstreamOpened {
                    peer,
                    protocol,
                    fallback,
                    direction,
                    substream,
                }),
                InnerTransportEvent::SubstreamOpenFailure { substream, error } => told
                    == (TransportEvent::<S>::SubstreamOpenFailure { substream, error }),
                _ => false,
            }
        }),
{
}

/// The first connection to a peer is the primary one. The protocol learns of it, and it is kept
/// open until its timeout is over.
pub proof fn law_first_connection<S>(
    view: ServiceView,
    peer: PeerId,
    connection: ConnectionId,
    address: Multiaddr,
    sender: ConnectionHandle,
)
    requires
        !view.connections.contains_key(peer),
    ensures
        ({
            let (after, actions) = view.on_input(
                ServiceInput::Event(
                    InnerTransportEvent::<S>::ConnectionEstablished {
                        peer,
                        connection,
                        address,
                        sender,
                    },
                ),
            );
            &&& actions == seq![
                ServiceAction::<S>::StartKeepAlive { peer, connection },
                ServiceAction::<S>::Report(TransportEvent::ConnectionEstablished { peer, address }),
            ]
            &&& after.connections == view.connections.insert(
                peer,
                ConnectionContext { primary: sender, secondary: None },
            )
            &&& after.keep_alive_timeouts == view.keep_alive_timeouts.insert((peer, connection))
        }),
{
}

/// The second connection to a peer is the secondary one: the primary one stays what it is, and the
/// protocol does not learn of it. A third one is given up.
pub proof fn law_further_connections<S>(
    view: ServiceView,
    peer: PeerId,
    connection: ConnectionId,
    address: Multiaddr,
    sender: ConnectionHandle,
)
    requires
        view.connections.contains_key(peer),
    ensures
        ({
            let (after, actions) = view.on_input(
                ServiceInput::Event(
                    InnerTransportEvent::<S>::ConnectionEstablished {
                        peer,
                        connection,
                        address,
                        sender,
                    },
                ),
            );
            if view.connections[peer].secondary is None {
                &&& actions == seq![ServiceAction::<S>::StartKeepAlive { peer, connection }]
                &&& after.connections == view.connections.insert(
                    peer,
                    ConnectionContext {
                        primary: view.connections[peer].primary,
                        secondary: Some(sender),
                    },
                )
                &&& after.keep_alive_timeouts == view.keep_alive_timeouts.insert(
                    (peer, connection),
                )
            } else {
                &&& actions == seq![ServiceAction::<S>::Drop { connection }]
                &&& after == view
            }
        }),
{
}

/// A connection that closes is given up. The protocol learns of it if it was the last one, and
/// otherwise the other one remains, as the primary one.
pub proof fn law_connection_closes<S>(view: ServiceView, peer: PeerId, connection: ConnectionId)
    requires
        knows_connection(view, peer, connection),
        view.connections[peer].secondary matches Some(handle) ==> handle.connection_id
            != view.connections[peer].primary.connection_id,
    ensures
        ({
            let context = view.connections[peer];
            let (after, actions) = view.on_input(
                ServiceInput::Event(
                    InnerTransportEvent::<S>::ConnectionClosed { peer, connection },
                ),
            );
            &&& after.keep_alive_timeouts == view.keep_alive_timeouts
            &&& match context.secondary {
                None => {
                    &&& after.connections == view.connections.remove(peer)
                    &&& actions == seq![
                        ServiceAction::<S>::Drop { connection },
                        ServiceAction::<S>::Report(TransportEvent::ConnectionClosed { peer }),
                    ]
                },
                Some(secondary) => {
                    &&& after.connections == view.connections.insert(
                        peer,
                        ConnectionContext {
                            primary: if connection == secondary.connection_id {
                                context.primary
                            } else {
                                secondary
                            },
                            secondary: None,
                        },
                    )
                    &&& actions == seq![ServiceAction::<S>::Drop { connection }]
                },
            }
        }),
{
}

/// When its keep-alive timeout is over, an active connection is downgraded, once: it stays known,
/// and from then on it is there only for those that keep it open.
pub proof fn law_keep_alive_ends<S>(view: ServiceView, peer: PeerId)
    requires
        view.connections.contains_key(peer),
        view.connections[peer].primary.connection is Active,
    ensures
        ({
            let context = view.connections[peer];
            let connection = context.primary.connection_id;
            let (after, first) = view.on_input(
                ServiceInput::<S>::KeepAliveTimeout { peer, connection },
            );
            let (last, second) = after.on_input(
                ServiceInput::<S>::KeepAliveTimeout { peer, connection },
            );
            &&& first == seq![ServiceAction::<S>::Downgrade { connection }]
            &&& second.len() == 0
            &&& after.connections.contains_key(peer)
            &&& after.connections[peer].primary.connection_id == connection
            &&& after.connections[peer].secondary == context.secondary
            &&& context.primary.permits(false)
            &&& after.connections[peer].primary.permits(true)
            &&& !after.connections[peer].primary.permits(false)
            &&& last.connections[peer] == after.connections[peer]
            &&& after.keep_alive_timeouts == view.keep_alive_timeouts.remove((peer, connection))
        }),
{
}

/// The same holds of the secondary connection.
pub proof fn law_secondary_keep_alive_ends<S>(view: ServiceView, peer: PeerId)
    requires
        view.connections.contains_key(peer),
        view.connections[peer].secondary matches Some(handle) && handle.connection is Active
            && handle.connection_id != view.connections[peer].primary.connection_id,
    ensures
        ({
            let context = view.connections[peer];
            let connection = context.secondary->Some_0.connection_id;
            let (after, actions) = view.on_input(
                ServiceInput::<S>::KeepAliveTimeout { peer, connection },
            );
            &&& actions == seq![ServiceAction::<S>::Downgrade { connection }]
            &&& after.connections[peer].primary == context.primary
            &&& after.connections[peer].secondary matches Some(handle) && handle.connection_id
                == connection && !handle.permits(false)
        }),
{
}

} // verus!
