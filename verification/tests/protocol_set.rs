//! The protocols of a connection.

use litep2p::address::Multiaddr;
use litep2p::collections::AssocMap;
use litep2p::error::{Error, NegotiationError, SubstreamError};
use litep2p::peer_id::PeerId;
use litep2p::protocol::protocol_set::{ProtocolContext, ProtocolSet, TransportManagerEvent};
use litep2p::protocol::transport_service::InnerTransportEvent;
use litep2p::protocol::{Direction, ProtocolCodec};
use litep2p::types::{ConnectionId, ProtocolName, SubstreamId};
use std::collections::HashSet;

fn name(text: &str) -> ProtocolName {
    ProtocolName::from_name(String::from(text))
}

fn protocol_set() -> ProtocolSet {
    let mut protocols = AssocMap::new();
    protocols.insert(
        name("/notif/1"),
        ProtocolContext {
            codec: ProtocolCodec::Identity(32),
            fallback_names: vec![name("/notif/1/fallback/1"), name("/notif/1/fallback/2")],
        },
    );
    ProtocolSet::new(ConnectionId(0), protocols)
}

#[test]
fn fallback_is_provided() {
    let protocol_set = protocol_set();

    let expected_protocols = HashSet::from([
        String::from("/notif/1"),
        String::from("/notif/1/fallback/1"),
        String::from("/notif/1/fallback/2"),
    ]);

    assert_eq!(protocol_set.protocols().len(), 3);
    for protocol in protocol_set.protocols().iter() {
        assert!(expected_protocols.contains(protocol.as_str()));
    }

    protocol_set
        .report_substream_open(
            PeerId::random(),
            name("/notif/1/fallback/2"),
            Direction::Inbound,
            0usize,
        )
        .unwrap();
}

#[test]
fn main_protocol_reported_if_main_protocol_negotiated() {
    let protocol_set = protocol_set();

    let (target, event) = protocol_set
        .report_substream_open(PeerId::random(), name("/notif/1"), Direction::Inbound, 0usize)
        .unwrap();
    assert_eq!(target, name("/notif/1"));

    match event {
        InnerTransportEvent::SubstreamOpened { protocol, fallback, .. } => {
            assert!(fallback.is_none());
            assert_eq!(protocol, name("/notif/1"));
        }
        _ => panic!("invalid event received"),
    }
}

#[test]
fn fallback_is_reported_to_protocol() {
    let protocol_set = protocol_set();

    let (target, event) = protocol_set
        .report_substream_open(
            PeerId::random(),
            name("/notif/1/fallback/2"),
            Direction::Inbound,
            0usize,
        )
        .unwrap();
    assert_eq!(target, name("/notif/1"));

    match event {
        InnerTransportEvent::SubstreamOpened { protocol, fallback, .. } => {
            assert_eq!(fallback, Some(name("/notif/1/fallback/2")));
            assert_eq!(protocol, name("/notif/1"));
        }
        _ => panic!("invalid event received"),
    }
}

#[test]
fn unknown_protocol_is_refused() {
    let protocol_set = protocol_set();
    assert_eq!(
        protocol_set.report_substream_open(
            PeerId::random(),
            name("/other/1"),
            Direction::Inbound,
            0usize,
        ),
        Err(Error::ProtocolNotSupported(name("/other/1")))
    );
}

#[test]
fn codec_of_a_fallback_is_that_of_its_protocol() {
    let protocol_set = protocol_set();
    assert_eq!(protocol_set.protocol_codec(&name("/notif/1")), ProtocolCodec::Identity(32));
    assert_eq!(
        protocol_set.protocol_codec(&name("/notif/1/fallback/1")),
        ProtocolCodec::Identity(32)
    );
}

#[test]
fn open_failure_goes_to_its_protocol() {
    let protocol_set = protocol_set();
    let error = || {
        Error::SubstreamError(SubstreamError::NegotiationError(NegotiationError::Timeout))
    };
    let (target, event) = protocol_set
        .report_substream_open_failure::<usize>(name("/notif/1"), SubstreamId(3), error())
        .unwrap();
    assert_eq!(target, name("/notif/1"));
    assert_eq!(
        event,
        InnerTransportEvent::SubstreamOpenFailure { substream: SubstreamId(3), error: error() }
    );
    assert_eq!(
        protocol_set.report_substream_open_failure::<usize>(
            name("/other/1"),
            SubstreamId(3),
            error(),
        ),
        Err(Error::ProtocolNotSupported(name("/other/1")))
    );
}

#[test]
fn connections_are_reported_to_all_protocols() {
    let mut protocol_set = protocol_set();
    let peer = PeerId::random();
    assert!(protocol_set.try_get_permit(false).is_some());

    let (events, manager) = protocol_set.report_connection_established::<usize>(
        ConnectionId(0),
        peer,
        Multiaddr::empty(),
    );
    assert_eq!(events.len(), 1);
    assert_eq!(events[0].0, name("/notif/1"));
    assert!(matches!(events[0].1, InnerTransportEvent::ConnectionEstablished { .. }));
    assert_eq!(
        manager,
        TransportManagerEvent::ConnectionEstablished {
            peer,
            connection: ConnectionId(0),
            address: Multiaddr::empty(),
        }
    );
    // from now on the protocols keep the connection open
    assert!(protocol_set.try_get_permit(false).is_none());
    assert!(protocol_set.try_get_permit(true).is_some());

    let (events, manager) = protocol_set.report_connection_closed::<usize>(peer, ConnectionId(0));
    assert_eq!(
        events,
        vec![(
            name("/notif/1"),
            InnerTransportEvent::ConnectionClosed { peer, connection: ConnectionId(0) },
        )]
    );
    assert_eq!(
        manager,
        TransportManagerEvent::ConnectionClosed { peer, connection: ConnectionId(0) }
    );
}
