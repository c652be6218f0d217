//! Supported protocol information.

use crate::address::Multiaddr;
use crate::collections;
use crate::collections::AssocMap;
use crate::error::Error;
use crate::peer_id::PeerId;
use crate::protocol::connection;
use crate::protocol::connection::{ConnectionHandle, ConnectionType, Permit};
use crate::protocol::transport_service::InnerTransportEvent;
use crate::protocol::{Direction, ProtocolCodec};
use crate::types;
use crate::types::{ConnectionId, ProtocolName, SubstreamId};
use vstd::prelude::*;

verus! {

/// What is known of an installed protocol.
#[derive(Debug, PartialEq, Eq)]
pub struct ProtocolContext {
    /// Codec used by the protocol.
    pub codec: ProtocolCodec,
    /// Fallback names for the protocol.
    pub fallback_names: Vec<ProtocolName>,
}

/// What is known of an installed protocol, by its view.
pub struct ContextView {
    /// Codec used by the protocol.
    pub codec: ProtocolCodec,
    /// Fallback names for the protocol.
    pub fallback_names: Seq<Seq<char>>,
}

impl View for ProtocolContext {
    type V = ContextView;

    open spec fn view(&self) -> ContextView {
        ContextView {
            codec: self.codec,
            fallback_names: connection::name_views(self.fallback_names@),
        }
    }
}

/// Installed protocols, by their views.
pub open spec fn contexts_view(protocols: Map<Seq<char>, ProtocolContext>) -> Map<
    Seq<char>,
    ContextView,
> {
    protocols.map_values(|context: ProtocolContext| context@)
}

/// Main names of fallback names, by their views.
pub open spec fn names_view(names: Map<Seq<char>, ProtocolName>) -> Map<Seq<char>, Seq<char>> {
    names.map_values(|name: ProtocolName| name@)
}

/// Events for the manager of the transports.
#[derive(Debug, PartialEq, Eq)]
pub enum TransportManagerEvent {
    /// Connection established to remote peer.
    ConnectionEstablished {
        /// Peer ID.
        peer: PeerId,
        /// Connection ID.
        connection: ConnectionId,
        /// Address of remote peer.
        address: Multiaddr,
    },
    /// Connection closed to remote peer.
    ConnectionClosed {
        /// Peer ID.
        peer: PeerId,
        /// Connection ID.
        connection: ConnectionId,
    },
}

/// The protocols of a connection.
#[verifier::ext_equal]
pub struct ProtocolSetView {
    /// Installed protocols.
    pub protocols: Map<Seq<char>, ContextView>,
    /// The protocol of each fallback name.
    pub fallback_names: Map<Seq<char>, Seq<char>>,
    /// Handle of the connection.
    pub connection: ConnectionHandle,
}

/// Whether a protocol is installed and has a fallback name.
pub open spec fn has_fallback(
    protocols: Map<Seq<char>, ContextView>,
    protocol: Seq<char>,
    fallback: Seq<char>,
) -> bool {
    protocols.contains_key(protocol) && protocols[protocol].fallback_names.contains(fallback)
}

impl ProtocolSetView {
    /// Whether the fallback names are those of the installed protocols, and each belongs to a
    /// protocol that has it.
    pub open spec fn wf(self) -> bool {
        &&& forall|fallback: Seq<char>| #[trigger]
            self.fallback_names.contains_key(fallback) ==> has_fallback(
                self.protocols,
                self.fallback_names[fallback],
                fallback,
            )
        &&& forall|protocol: Seq<char>, fallback: Seq<char>| #[trigger]
            has_fallback(self.protocols, protocol, fallback) ==> self.fallback_names.contains_key(
                fallback,
            )
    }

    /// The protocol that handles the substreams of a name: that of a fallback name, or the name
    /// itself.
    pub open spec fn main_protocol(self, name: Seq<char>) -> Seq<char> {
        if self.fallback_names.contains_key(name) {
            self.fallback_names[name]
        } else {
            name
        }
    }

    /// The fallback name that a substream was negotiated with, if it was one.
    pub open spec fn fallback(self, name: Seq<char>) -> Option<Seq<char>> {
        if self.fallback_names.contains_key(name) {
            Some(name)
        } else {
            None
        }
    }
}

/// Supported protocol information.
///
/// Each connection gets a copy of [`ProtocolSet`] which allows it to interact
/// directly with installed protocols.
pub struct ProtocolSet {
    /// Installed protocols.
    protocols: AssocMap<ProtocolName, ProtocolContext>,
    /// Handle of the connection.
    connection: ConnectionHandle,
    /// The protocol of each fallback name.
    fallback_names: AssocMap<ProtocolName, ProtocolName>,
}

impl View for ProtocolSet {
    type V = ProtocolSetView;

    closed spec fn view(&self) -> ProtocolSetView {
        ProtocolSetView {
            protocols: contexts_view(self.protocols@),
            fallback_names: names_view(self.fallback_names@),
            connection: self.connection,
        }
    }
}

/// Lets `names` be fallback names of `protocol`.
fn add_fallback_names(
    fallback_names: &mut AssocMap<ProtocolName, ProtocolName>,
    protocol: &ProtocolName,
    names: &Vec<ProtocolName>,
)
    ensures
        forall|name: Seq<char>| #[trigger]
            names_view(final(fallback_names)@).contains_key(name) <==> names_view(
                old(fallback_names)@,
            ).contains_key(name) || connection::name_views(names@).contains(name),
        forall|name: Seq<char>| #[trigger]
            names_view(final(fallback_names)@).contains_key(name) ==> names_view(
                final(fallback_names)@,
            )[name] == (if connection::name_views(names@).contains(name) {
                protocol@
            } else {
                names_view(old(fallback_names)@)[name]
            }),
{
    let ghost all = connection::name_views(names@);
    let ghost before = names_view(fallback_names@);
    let mut i: usize = 0;
    while i < names.len()
        invariant
            i <= names@.len(),
            all == connection::name_views(names@),
            forall|name: Seq<char>| #[trigger]
                names_view(fallback_names@).contains_key(name) <==> before.contains_key(name)
                    || all.take(i as int).contains(name),
            forall|name: Seq<char>| #[trigger]
                names_view(fallback_names@).contains_key(name) ==> names_view(
                    fallback_names@,
                )[name] == (if all.take(i as int).contains(name) {
                    protocol@
                } else {
                    before[name]
                }),
        decreases names@.len() - i,
    {
        let name = names[i].clone();
        let main = protocol.clone();
        let ghost now = all.take(i + 1);
        let ghost earlier = names_view(fallback_names@);
        proof {
            collections::lemma_map_values_insert(
                fallback_names@,
                |name: ProtocolName| name@,
                name@,
                main,
            );
            assert(now =~= all.take(i as int).push(name@));
            assert forall|n: Seq<char>| #[trigger]
                now.contains(n) <==> all.take(i as int).contains(n) || n == name@ by {
                if all.take(i as int).contains(n) {
                    let j = choose|j: int| 0 <= j < i && all.take(i as int)[j] == n;
                    assert(now[j] == n);
                }
                if n == name@ {
                    assert(now[i as int] == n);
                }
            }
        }
        let _ = fallback_names.insert(name, main);
        assert(names_view(fallback_names@) == earlier.insert(name@, protocol@));
        i += 1;
    }
    assert(all.take(i as int) =~= all);
}

/// Whether `order` holds each name of `names` once and nothing else.
pub open spec fn lists(order: Seq<Seq<char>>, names: Set<Seq<char>>) -> bool {
    order.no_duplicates() && order.to_set() == names
}

/// The report that a connection is established.
pub open spec fn reports_established<S>(
    event: InnerTransportEvent<S>,
    peer: PeerId,
    connection: ConnectionId,
    address: Seq<u8>,
    sender: ConnectionHandle,
) -> bool {
    event matches InnerTransportEvent::ConnectionEstablished {
        peer: p,
        connection: c,
        address: a,
        sender: s,
    } && p == peer && c == connection && a@ == address && s == sender
}

impl ProtocolSet {
    /// Create new [`ProtocolSet`] for a connection.
    pub fn new(connection_id: ConnectionId, protocols: AssocMap<ProtocolName, ProtocolContext>) -> (r:
        Self)
        ensures
            r@.wf(),
            r@.protocols == contexts_view(protocols@),
            r@.connection == (ConnectionHandle {
                connection: ConnectionType::Active,
                connection_id,
            }),
    {
        let ghost view = contexts_view(protocols@);
        let ghost order = protocols.order();
        let mut fallback_names: AssocMap<ProtocolName, ProtocolName> = AssocMap::new();
        let count: usize = protocols.len();
        let mut i: usize = 0;
        while i < count
            invariant
                i <= count,
                count == order.len(),
                order == protocols.order(),
                view == contexts_view(protocols@),
                forall|fallback: Seq<char>| #[trigger]
                    names_view(fallback_names@).contains_key(fallback) ==> has_fallback(
                        view,
                        names_view(fallback_names@)[fallback],
                        fallback,
                    ),
                forall|j: int, fallback: Seq<char>|
                    0 <= j < i && #[trigger] has_fallback(view, order[j], fallback) ==> names_view(
                        fallback_names@,
                    ).contains_key(fallback),
            decreases count - i,
        {
            let protocol = protocols.key_at(i);
            let context = protocols.value_at(i);
            assert(view[order[i as int]] == context@);
            add_fallback_names(&mut fallback_names, protocol, &context.fallback_names);
            i += 1;
        }
        let r = ProtocolSet {
            protocols,
            connection: ConnectionHandle::new(connection_id),
            fallback_names,
        };
        proof {
            assert forall|protocol: Seq<char>, fallback: Seq<char>| #[trigger]
                has_fallback(view, protocol, fallback) implies r@.fallback_names.contains_key(
                fallback,
            ) by {
                assert(order.to_set().contains(protocol));
                let j = choose|j: int| 0 <= j < order.len() && order[j] == protocol;
                assert(has_fallback(view, order[j], fallback));
            }
        }
        r
    }

    /// Try to acquire permit to keep the connection open.
    ///
    /// `kept_open` says whether somebody keeps the connection open.
    pub fn try_get_permit(&self, kept_open: bool) -> (r: Option<Permit>)
        ensures
            r == (if self@.connection.permits(kept_open) {
                Some(Permit { connection_id: self@.connection.connection_id })
            } else {
                None
            }),
    {
        self.connection.try_get_permit(kept_open)
    }

    /// Get the list of all supported protocols: their names and their fallback names.
    pub fn protocols(&self) -> (r: Vec<ProtocolName>)
        ensures
            exists|main: Seq<Seq<char>>, fallback: Seq<Seq<char>>|
                lists(main, self@.protocols.dom()) && lists(fallback, self@.fallback_names.dom())
                    && connection::name_views(r@) == #[trigger] (main + fallback),
    {
        let ghost main = self.protocols.order();
        let ghost fallback = self.fallback_names.order();
        let mut names: Vec<ProtocolName> = Vec::new();
        let count: usize = self.protocols.len();
        let mut i: usize = 0;
        while i < count
            invariant
                i <= count,
                count == main.len(),
                main == self.protocols.order(),
                connection::name_views(names@) =~= main.take(i as int),
            decreases count - i,
        {
            let name = self.protocols.key_at(i).clone();
            let ghost before = connection::name_views(names@);
            names.push(name);
            assert(connection::name_views(names@) =~= before.push(name@));
            i += 1;
        }
        assert(main.take(count as int) =~= main);
        let count: usize = self.fallback_names.len();
        let mut i: usize = 0;
        while i < count
            invariant
                i <= count,
                count == fallback.len(),
                fallback == self.fallback_names.order(),
                connection::name_views(names@) =~= main + fallback.take(i as int),
            decreases count - i,
        {
            let name = self.fallback_names.key_at(i).clone();
            let ghost before = connection::name_views(names@);
            names.push(name);
            assert(connection::name_views(names@) =~= before.push(name@));
            i += 1;
        }
        proof {
            assert(fallback.take(count as int) =~= fallback);
            assert(self@.protocols.dom() =~= self.protocols@.dom());
            assert(self@.fallback_names.dom() =~= self.fallback_names@.dom());
            assert(connection::name_views(names@) == main + fallback);
        }
        names
    }

    /// Report to `protocol` that substream was opened for `peer`: the protocol that handles it, and
    /// the event for it.
    pub fn report_substream_open<S>(
        &self,
        peer: PeerId,
        protocol: ProtocolName,
        direction: Direction,
        substream: S,
    ) -> (r: Result<(ProtocolName, InnerTransportEvent<S>), Error>)
        ensures
            ({
                let main = self@.main_protocol(protocol@);
                match r {
                    Ok((target, event)) => {
                        &&& self@.protocols.contains_key(main)
                        &&& target@ == main
                        &&& event matches InnerTransportEvent::SubstreamOpened {
                            peer: p,
                            protocol: name,
                            fallback,
                            direction: d,
                            substream: s,
                        } && p == peer && name@ == main && types::fallback_view(fallback)
                            == self@.fallback(protocol@) && d == direction && s == substream
                    },
                    Err(error) => !self@.protocols.contains_key(main)
                        && (error matches Error::ProtocolNotSupported(name) && name@ == main),
                }
            }),
    {
        let (main, fallback) = match self.fallback_names.get(&protocol) {
            Some(main) => (main.clone(), Some(protocol)),
            None => (protocol, None),
        };
        if self.protocols.contains_key(&main) {
            let target = main.clone();
            Ok(
                (
                    target,
                    InnerTransportEvent::SubstreamOpened {
                        peer,
                        protocol: main,
                        fallback,
                        direction,
                        substream,
                    },
                ),
            )
        } else {
            Err(Error::ProtocolNotSupported(main))
        }
    }

    /// Get codec used by the protocol, which must be one of this set as it was negotiated using the
    /// protocols from this set.
    pub fn protocol_codec(&self, protocol: &ProtocolName) -> (r: ProtocolCodec)
        requires
            self@.protocols.contains_key(self@.main_protocol(protocol@)),
        ensures
            r == self@.protocols[self@.main_protocol(protocol@)].codec,
    {
        let main = match self.fallback_names.get(protocol) {
            Some(main) => main.clone(),
            None => protocol.clone(),
        };
        match self.protocols.get(&main) {
            Some(context) => context.codec,
            None => {
                assert(false);
                ProtocolCodec::UnsignedVarint(None)
            },
        }
    }

    /// Report to `protocol` that connection failed to open substream for `peer`.
    pub fn report_substream_open_failure<S>(
        &self,
        protocol: ProtocolName,
        substream: SubstreamId,
        error: Error,
    ) -> (r: Result<(ProtocolName, InnerTransportEvent<S>), Error>)
        ensures
            match r {
                Ok((target, event)) => {
                    &&& self@.protocols.contains_key(protocol@)
                    &&& target@ == protocol@
                    &&& event == InnerTransportEvent::<S>::SubstreamOpenFailure { substream, error }
                },
                Err(e) => !self@.protocols.contains_key(protocol@)
                    && (e matches Error::ProtocolNotSupported(name) && name@ == protocol@),
            },
    {
        if self.protocols.contains_key(&protocol) {
            Ok((protocol, InnerTransportEvent::SubstreamOpenFailure { substream, error }))
        } else {
            Err(Error::ProtocolNotSupported(protocol))
        }
    }

    /// Report to protocols that a connection was established: one event for each protocol, which
    /// gets the active handle of the connection.
    pub fn report_connection_established_new<S>(
        &mut self,
        connection_id: ConnectionId,
        peer: PeerId,
        address: &Multiaddr,
    ) -> (r: Vec<(ProtocolName, InnerTransportEvent<S>)>)
        requires
            old(self)@.connection.connection is Active,
        ensures
            final(self)@ == (ProtocolSetView {
                connection: ConnectionHandle {
                    connection: ConnectionType::Inactive,
                    ..old(self)@.connection
                },
                ..old(self)@
            }),
            lists(
                Seq::new(r@.len(), |i: int| r@[i].0@),
                old(self)@.protocols.dom(),
            ),
            forall|i: int|
                0 <= i < r@.len() ==> reports_established(
                    (#[trigger] r@[i]).1,
                    peer,
                    connection_id,
                    address@,
                    old(self)@.connection,
                ),
    {
        let sender = self.connection.downgrade();
        let ghost order = self.protocols.order();
        let mut reports: Vec<(ProtocolName, InnerTransportEvent<S>)> = Vec::new();
        let count: usize = self.protocols.len();
        let mut i: usize = 0;
        while i < count
            invariant
                i <= count,
                count == order.len(),
                order == self.protocols.order(),
                reports@.len() == i,
                forall|j: int| 0 <= j < i ==> (#[trigger] reports@[j]).0@ == order[j],
                forall|j: int|
                    0 <= j < i ==> reports_established(
                        (#[trigger] reports@[j]).1,
                        peer,
                        connection_id,
                        address@,
                        sender,
                    ),
            decreases count - i,
        {
            reports.push(
                (
                    self.protocols.key_at(i).clone(),
                    InnerTransportEvent::ConnectionEstablished {
                        peer,
                        connection: connection_id,
                        address: address.clone(),
                        sender,
                    },
                ),
            );
            i += 1;
        }
        proof {
            assert(Seq::new(reports@.len(), |i: int| reports@[i].0@) =~= order);
            assert(old(self)@.protocols.dom() =~= self.protocols@.dom());
        }
        reports
    }

    /// Report to protocols, and to the manager of the transports, that a connection was established.
    pub fn report_connection_established<S>(
        &mut self,
        connection_id: ConnectionId,
        peer: PeerId,
        address: Multiaddr,
    ) -> (r: (Vec<(ProtocolName, InnerTransportEvent<S>)>, TransportManagerEvent))
        requires
            old(self)@.connection.connection is Active,
        ensures
            final(self)@ == (ProtocolSetView {
                connection: ConnectionHandle {
                    connection: ConnectionType::Inactive,
                    ..old(self)@.connection
                },
                ..old(self)@
            }),
            lists(
                Seq::new(r.0@.len(), |i: int| r.0@[i].0@),
                old(self)@.protocols.dom(),
            ),
            forall|i: int|
                0 <= i < r.0@.len() ==> reports_established(
                    (#[trigger] r.0@[i]).1,
                    peer,
                    connection_id,
                    address@,
                    old(self)@.connection,
                ),
            r.1 == (TransportManagerEvent::ConnectionEstablished {
                peer,
                connection: connection_id,
                address,
            }),
    {
        let reports = self.report_connection_established_new(connection_id, peer, &address);
        (
            reports,
            TransportManagerEvent::ConnectionEstablished {
                peer,
                connection: connection_id,
                address,
            },
        )
    }

    /// Report to protocols, and to the manager of the transports, that a connection was closed.
    pub fn report_connection_closed<S>(&self, peer: PeerId, connection_id: ConnectionId) -> (r: (
        Vec<(ProtocolName, InnerTransportEvent<S>)>,
        TransportManagerEvent,
    ))
        ensures
            lists(Seq::new(r.0@.len(), |i: int| r.0@[i].0@), self@.protocols.dom()),
            forall|i: int|
                0 <= i < r.0@.len() ==> (#[trigger] r.0@[i]).1
                    == (InnerTransportEvent::<S>::ConnectionClosed {
                    peer,
                    connection: connection_id,
                }),
            r.1 == (TransportManagerEvent::ConnectionClosed { peer, connection: connection_id }),
    {
        let ghost order = self.protocols.order();
        let mut reports: Vec<(ProtocolName, InnerTransportEvent<S>)> = Vec::new();
        let count: usize = self.protocols.len();
        let mut i: usize = 0;
        while i < count
            invariant
                i <= count,
                count == order.len(),
                order == self.protocols.order(),
                reports@.len() == i,
                forall|j: int| 0 <= j < i ==> (#[trigger] reports@[j]).0@ == order[j],
                forall|j: int|
                    0 <= j < i ==> (#[trigger] reports@[j]).1
                        == (InnerTransportEvent::<S>::ConnectionClosed {
                        peer,
                        connection: connection_id,
                    }),
            decreases count - i,
        {
            reports.push(
                (
                    self.protocols.key_at(i).clone(),
                    InnerTransportEvent::ConnectionClosed { peer, connection: connection_id },
                ),
            );
            i += 1;
        }
        proof {
            assert(Seq::new(reports@.len(), |i: int| reports@[i].0@) =~= order);
            assert(self@.protocols.dom() =~= self.protocols@.dom());
        }
        (reports, TransportManagerEvent::ConnectionClosed { peer, connection: connection_id })
    }
}

/// Every name that a connection can negotiate, which is that of a protocol or one of its fallback
/// names, leads to an installed protocol.
pub proof fn law_negotiated_names_handled(set: ProtocolSetView, name: Seq<char>)
    requires
        set.wf(),
        set.protocols.contains_key(name) || set.fallback_names.contains_key(name),
    ensures
        set.protocols.contains_key(set.main_protocol(name)),
{
}

/// A substream that was negotiated with the name of a protocol itself is reported to the protocol
/// without a fallback name, unless the name is also a fallback name of some protocol.
pub proof fn law_main_name_has_no_fallback(set: ProtocolSetView, name: Seq<char>)
    requires
        set.wf(),
        forall|protocol: Seq<char>| !#[trigger] has_fallback(set.protocols, protocol, name),
    ensures
        set.main_protocol(name) == name,
        set.fallback(name) is None,
{
    if set.fallback_names.contains_key(name) {
        assert(has_fallback(set.protocols, set.fallback_names[name], name));
    }
}

/// A substream that was negotiated with a fallback name of one protocol alone is reported to that
/// protocol, together with the fallback name.
pub proof fn law_fallback_reported(set: ProtocolSetView, protocol: Seq<char>, name: Seq<char>)
    requires
        set.wf(),
        has_fallback(set.protocols, protocol, name),
        forall|other: Seq<char>| #[trigger]
            has_fallback(set.protocols, other, name) ==> other == protocol,
    ensures
        set.main_protocol(name) == protocol,
        set.fallback(name) == Some(name),
{
    assert(has_fallback(set.protocols, set.fallback_names[name], name));
}

} // verus!
