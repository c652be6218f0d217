//! What a protocol sees of the connections to a peer.

use litep2p::address::Multiaddr;
use litep2p::error::Error;
use litep2p::peer_id::PeerId;
use litep2p::protocol::connection::{ConnectionHandle, ProtocolCommand};
use litep2p::protocol::transport_service::{
    InnerTransportEvent, ServiceAction, ServiceInput, TransportService, KEEP_ALIVE,
};
use litep2p::protocol::{Direction, TransportEvent};
use litep2p::types::{ConnectionId, ProtocolName, SubstreamId};

type Action = ServiceAction<usize>;

fn name(text: &str) -> ProtocolName {
    ProtocolName::from_name(String::from(text))
}

/// Create new `TransportService`
fn transport_service(keep_alive: u64) -> TransportService {
    TransportService::new(PeerId::random(), name("/notif/1"), Vec::new(), keep_alive)
}

fn establish(service: &mut TransportService, peer: PeerId, connection: usize) -> Vec<Action> {
    service.next_event(ServiceInput::Event(InnerTransportEvent::ConnectionEstablished {
        peer,
        connection: ConnectionId(connection),
        address: Multiaddr::empty(),
        sender: ConnectionHandle::new(ConnectionId(connection)),
    }))
}

fn close(service: &mut TransportService, peer: PeerId, connection: usize) -> Vec<Action> {
    service.next_event(ServiceInput::Event(InnerTransportEvent::ConnectionClosed {
        peer,
        connection: ConnectionId(connection),
    }))
}

/// The events that the protocol is told.
fn events(actions: Vec<Action>) -> Vec<TransportEvent<usize>> {
    actions
        .into_iter()
        .filter_map(|action| match action {
            ServiceAction::Report(event) => Some(event),
            _ => None,
        })
        .collect()
}

fn first_connection(service: &mut TransportService, peer: PeerId, connection: usize) {
    assert_eq!(
        events(establish(service, peer, connection)),
        vec![TransportEvent::ConnectionEstablished { peer, address: Multiaddr::empty() }]
    );
}

fn second_connection(service: &mut TransportService, peer: PeerId) {
    assert_eq!(events(establish(service, peer, 1)), vec![]);

    let context = service.connection(&peer).unwrap();
    assert_eq!(context.primary.connection_id(), ConnectionId(0));
    assert_eq!(context.secondary.as_ref().unwrap().connection_id(), ConnectionId(1));
}

fn secondary_connection_stored(keep_alive: u64) {
    let mut service = transport_service(keep_alive);
    let peer = PeerId::random();

    first_connection(&mut service, peer, 0);
    second_connection(&mut service, peer);
}

fn tertiary_connection_ignored(keep_alive: u64) {
    let mut service = transport_service(keep_alive);
    let peer = PeerId::random();

    first_connection(&mut service, peer, 0);
    second_connection(&mut service, peer);

    // try to register tertiary connection and verify it's ignored
    assert_eq!(events(establish(&mut service, peer, 2)), vec![]);

    let context = service.connection(&peer).unwrap();
    assert_eq!(context.primary.connection_id(), ConnectionId(0));
    assert_eq!(context.secondary.as_ref().unwrap().connection_id(), ConnectionId(1));
}

fn secondary_closing_doesnt_emit_event(keep_alive: u64) {
    let mut service = transport_service(keep_alive);
    let peer = PeerId::random();

    first_connection(&mut service, peer, 0);
    second_connection(&mut service, peer);

    // close the secondary connection and verify that the protocol is not notified
    assert_eq!(events(close(&mut service, peer, 1)), vec![]);

    // verify that the secondary connection doesn't exist anymore
    let context = service.connection(&peer).unwrap();
    assert_eq!(context.primary.connection_id(), ConnectionId(0));
    assert!(context.secondary.is_none());
}

fn convert_secondary_to_primary(keep_alive: u64) {
    let mut service = transport_service(keep_alive);
    let peer = PeerId::random();

    first_connection(&mut service, peer, 0);
    second_connection(&mut service, peer);

    // close the primary connection and verify that the protocol is not notified
    assert_eq!(events(close(&mut service, peer, 0)), vec![]);

    // verify that the primary connection has been replaced
    let context = service.connection(&peer).unwrap();
    assert_eq!(context.primary.connection_id(), ConnectionId(1));
    assert!(context.secondary.is_none());

    // close the secondary connection as well
    assert_eq!(
        events(close(&mut service, peer, 1)),
        vec![TransportEvent::ConnectionClosed { peer }]
    );
    assert!(service.connection(&peer).is_none());
}

fn keep_alive_timeout_expires_for_a_stale_connection(keep_alive: u64) {
    let mut service = transport_service(keep_alive);
    let peer = PeerId::random();

    first_connection(&mut service, peer, 1337);

    // verify the first connection state is correct
    assert_eq!(service.pending_keep_alive_timeouts(), 1);
    let context = service.connection(&peer).unwrap();
    assert_eq!(context.primary.connection_id(), ConnectionId(1337));
    assert!(context.secondary.is_none());

    // close the primary connection and verify that the protocols are notified of it
    assert_eq!(
        events(close(&mut service, peer, 1337)),
        vec![TransportEvent::ConnectionClosed { peer }]
    );

    // verify that the keep-alive timeout still exists for the peer but the peer itself
    // doesn't exist anymore
    //
    // the peer is removed because there is no connection to them
    assert_eq!(service.pending_keep_alive_timeouts(), 1);
    assert!(service.connection(&peer).is_none());

    // register new primary connection but verify that there are now two pending keep-alive
    // timeouts
    first_connection(&mut service, peer, 1338);

    assert_eq!(service.pending_keep_alive_timeouts(), 2);
    let context = service.connection(&peer).unwrap();
    assert_eq!(context.primary.connection_id(), ConnectionId(1338));
    assert!(context.secondary.is_none());

    // both timeouts expire, and nothing is reported
    for connection in [1337, 1338] {
        let actions: Vec<Action> = service.next_event(ServiceInput::KeepAliveTimeout {
            peer,
            connection: ConnectionId(connection),
        });
        assert_eq!(events(actions), vec![]);
    }
    assert_eq!(service.pending_keep_alive_timeouts(), 0);
}

const FIVE_SECONDS: u64 = 5_000_000_000;

#[test]
fn protocol_set_secondary_connection_stored() {
    secondary_connection_stored(KEEP_ALIVE);
}

#[test]
fn protocol_set_tertiary_connection_ignored() {
    tertiary_connection_ignored(KEEP_ALIVE);
}

#[test]
fn protocol_set_secondary_closing_doesnt_emit_event() {
    secondary_closing_doesnt_emit_event(KEEP_ALIVE);
}

#[test]
fn protocol_set_convert_secondary_to_primary() {
    convert_secondary_to_primary(KEEP_ALIVE);
}

#[test]
fn protocol_set_keep_alive_timeout_expires_for_a_stale_connection() {
    keep_alive_timeout_expires_for_a_stale_connection(KEEP_ALIVE);
}

#[test]
fn transport_service_secondary_connection_stored() {
    secondary_connection_stored(FIVE_SECONDS);
}

#[test]
fn transport_service_tertiary_connection_ignored() {
    tertiary_connection_ignored(FIVE_SECONDS);
}

#[test]
fn transport_service_secondary_closing_doesnt_emit_event() {
    secondary_closing_doesnt_emit_event(FIVE_SECONDS);
}

#[test]
fn transport_service_convert_secondary_to_primary() {
    convert_secondary_to_primary(FIVE_SECONDS);
}

#[test]
fn transport_service_keep_alive_timeout_expires_for_a_stale_connection() {
    keep_alive_timeout_expires_for_a_stale_connection(FIVE_SECONDS);
}

#[test]
fn keep_alive_timeout_downgrades_its_connection_alone() {
    let mut service = transport_service(KEEP_ALIVE);
    let peer = PeerId::random();
    first_connection(&mut service, peer, 0);
    second_connection(&mut service, peer);

    let actions: Vec<Action> = service.next_event(ServiceInput::KeepAliveTimeout {
        peer,
        connection: ConnectionId(1),
    });
    assert_eq!(actions, vec![ServiceAction::Downgrade { connection: ConnectionId(1) }]);
    let context = service.connection(&peer).unwrap();
    // the primary connection is kept open by itself, the other one by substreams alone
    assert!(context.primary.try_get_permit(false).is_some());
    assert!(context.secondary.unwrap().try_get_permit(false).is_none());
    assert!(context.secondary.unwrap().try_get_permit(true).is_some());
}

#[test]
fn substream_is_opened_over_the_primary_connection() {
    let mut service = TransportService::new(
        PeerId::random(),
        name("/notif/1"),
        vec![name("/notif/0")],
        KEEP_ALIVE,
    );
    let peer = PeerId::random();
    assert_eq!(
        service.open_substream(peer, true, SubstreamId(7)),
        Err(Error::PeerDoesntExist(peer))
    );

    first_connection(&mut service, peer, 3);
    match service.open_substream(peer, true, SubstreamId(7)).unwrap() {
        ProtocolCommand::OpenSubstream { protocol, fallback_names, substream_id, permit } => {
            assert_eq!(protocol, name("/notif/1"));
            assert_eq!(fallback_names, vec![name("/notif/0")]);
            assert_eq!(substream_id, SubstreamId(7));
            assert_eq!(permit.connection_id, ConnectionId(3));
        }
        _ => panic!("a substream is to be opened"),
    }

    let actions: Vec<Action> = service.next_event(ServiceInput::KeepAliveTimeout {
        peer,
        connection: ConnectionId(3),
    });
    assert_eq!(actions.len(), 1);
    assert_eq!(service.open_substream(peer, false, SubstreamId(8)), Err(Error::ConnectionClosed));
}

#[test]
fn connections_are_force_closed() {
    let mut service = transport_service(KEEP_ALIVE);
    let peer = PeerId::random();
    assert_eq!(service.force_close(peer), Err(Error::PeerDoesntExist(peer)));
    first_connection(&mut service, peer, 0);
    assert_eq!(service.force_close(peer), Ok(vec![ConnectionId(0)]));
    second_connection(&mut service, peer);
    assert_eq!(service.force_close(peer), Ok(vec![ConnectionId(1), ConnectionId(0)]));
}

#[test]
fn other_events_are_handed_on() {
    let mut service = transport_service(KEEP_ALIVE);
    let peer = PeerId::random();
    let actions = service.next_event(ServiceInput::Event(InnerTransportEvent::SubstreamOpened {
        peer,
        protocol: name("/notif/1"),
        fallback: Some(name("/notif/0")),
        direction: Direction::Outbound(SubstreamId(2)),
        substream: 5usize,
    }));
    assert_eq!(
        events(actions),
        vec![TransportEvent::SubstreamOpened {
            peer,
            protocol: name("/notif/1"),
            fallback: Some(name("/notif/0")),
            direction: Direction::Outbound(SubstreamId(2)),
            substream: 5usize,
        }]
    );
}

#[test]
fn known_addresses_name_their_peer() {
    let service = transport_service(KEEP_ALIVE);
    let peer = PeerId::random();
    let parse = |text: String| {
        let address: multiaddr::Multiaddr = text.parse().unwrap();
        Multiaddr::from_bytes(address.to_vec()).unwrap()
    };
    let plain = parse(String::from("/ip4/127.0.0.1/tcp/8888"));
    let named = parse(format!("/ip4/127.0.0.1/tcp/8888/p2p/{}", peer.to_base58()));
    assert_ne!(plain, named);

    // the address is completed, and the same address twice is one
    let known = service.add_known_address(&peer, vec![plain, named.clone()]);
    assert_eq!(known, vec![named]);
}

#[test]
fn ignored_connection_closes_silently() {
    let mut service = transport_service(KEEP_ALIVE);
    let peer = PeerId::random();

    first_connection(&mut service, peer, 0);
    second_connection(&mut service, peer);
    assert_eq!(events(establish(&mut service, peer, 2)), vec![]);

    // the third connection was ignored, and so is its end
    assert_eq!(close(&mut service, peer, 2), vec![]);
    let context = service.connection(&peer).unwrap();
    assert_eq!(context.primary.connection_id(), ConnectionId(0));
    assert_eq!(context.secondary.as_ref().unwrap().connection_id(), ConnectionId(1));

    // the secondary connection can still take over
    assert_eq!(events(close(&mut service, peer, 0)), vec![]);
    let context = service.connection(&peer).unwrap();
    assert_eq!(context.primary.connection_id(), ConnectionId(1));
    assert!(context.secondary.is_none());
}
