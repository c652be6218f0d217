//! Ping and identify.

use litep2p::address::Multiaddr;
use litep2p::error::{Error, SubstreamError};
use litep2p::peer_id::{PeerId, PublicKey};
use litep2p::protocol::libp2p::identify::{
    on_identified, Config, Identify, IdentifyAction, IdentifyEvent, IdentifyInput, IdentifyMessage,
    IDENTIFY_PAYLOAD_SIZE,
};
use litep2p::protocol::libp2p::ping::config::{
    PingConfig, PingConfigBuilder, MAX_FAILURES, PING_PAYLOAD_SIZE,
};
use litep2p::protocol::libp2p::ping::{
    Ping, PingAction, PingError, PingEvent, PingInput, PingReply, Pinger,
};
use litep2p::protocol::{Direction, ProtocolCodec, TransportEvent};
use litep2p::types::{ProtocolName, SubstreamId};

fn name(text: &str) -> ProtocolName {
    ProtocolName::from_name(String::from(text))
}

fn address(text: &str) -> Multiaddr {
    let address: multiaddr::Multiaddr = text.parse().unwrap();
    Multiaddr::from_bytes(address.to_vec()).unwrap()
}

fn opened(peer: PeerId, direction: Direction, substream: usize) -> TransportEvent<usize> {
    TransportEvent::SubstreamOpened {
        peer,
        protocol: name("/ipfs/ping/1.0.0"),
        fallback: None,
        direction,
        substream,
    }
}

#[test]
fn ping_configuration() {
    let config = PingConfig::default();
    assert_eq!(config.protocol, name("/ipfs/ping/1.0.0"));
    assert_eq!(config.codec, ProtocolCodec::Identity(PING_PAYLOAD_SIZE));
    assert_eq!(config.max_failures, MAX_FAILURES);
    assert_eq!(PingConfig::new(7).max_failures, 7);

    let config = PingConfigBuilder::new().with_max_failure(5).with_keep_alive(true).build();
    assert_eq!(config.max_failures, 5);
    assert!(config.keep_alive);
    assert_eq!(Ping::new(config, 99).max_failures(), 5);
}

#[test]
fn payload_is_random() {
    let pinger = Pinger::new(SubstreamId(7), false);
    assert_eq!(pinger.payload().len(), 32);
    assert_ne!(pinger.payload(), pinger.payload());
}

#[test]
fn outcomes_of_a_ping() {
    let mut pinger = Pinger::new(SubstreamId(7), false);
    let payload = pinger.payload();
    let echo = PingReply::Received { payload: payload.clone(), elapsed: 12 };
    assert_eq!(pinger.on_reply(&payload, echo), Ok(12));
    assert!(pinger.should_wait());

    let other = PingReply::Received { payload: vec![0; 31], elapsed: 12 };
    assert_eq!(pinger.on_reply(&payload, other), Err(PingError::InvalidPayload));
    assert!(!pinger.should_wait());
    assert_eq!(pinger.on_reply(&payload, PingReply::TimedOut), Err(PingError::Timeout));
    assert_eq!(
        pinger.on_reply(&payload, PingReply::Closed),
        Err(PingError::SubstreamError(SubstreamError::ReadFailure(Some(SubstreamId(7)))))
    );
    assert_eq!(
        pinger.on_reply(&payload, PingReply::Failed(SubstreamError::WriteFailure)),
        Err(PingError::SubstreamError(SubstreamError::WriteFailure))
    );
}

#[test]
fn failed_ping_is_retried_after_the_interval() {
    let mut ping = Ping::new(PingConfig::default(), 15);
    assert_eq!(ping.ping_interval(), 15);
    let peer = PeerId::random();

    let actions: Vec<PingAction<usize>> =
        ping.next_event(PingInput::Transport(TransportEvent::ConnectionEstablished {
            peer,
            address: Multiaddr::empty(),
        }));
    assert_eq!(actions, vec![PingAction::OpenSubstream { peer }]);
    let event = opened(peer, Direction::Outbound(SubstreamId(0)), 5);
    assert_eq!(
        ping.next_event(PingInput::Transport(event)),
        vec![PingAction::StartPinger {
            peer,
            substream_id: SubstreamId(0),
            substream: 5,
            should_wait: false,
        }]
    );

    let actions: Vec<PingAction<usize>> =
        ping.next_event(PingInput::Pong { peer, result: Ok(3) });
    assert_eq!(actions, vec![PingAction::Report(PingEvent::Ping { peer, ping: 3 })]);
    let actions: Vec<PingAction<usize>> =
        ping.next_event(PingInput::Pong { peer, result: Err(PingError::Timeout) });
    assert_eq!(
        actions,
        vec![PingAction::StopPinger { peer }, PingAction::ReopenSubstream { peer }]
    );

    let actions: Vec<PingAction<usize>> =
        ping.next_event(PingInput::Reopened { substream: SubstreamId(1) });
    assert_eq!(actions, vec![]);
    let event = opened(peer, Direction::Outbound(SubstreamId(1)), 6);
    assert_eq!(
        ping.next_event(PingInput::Transport(event)),
        vec![PingAction::StartPinger {
            peer,
            substream_id: SubstreamId(1),
            substream: 6,
            should_wait: true,
        }]
    );
}

#[test]
fn inbound_pings_are_answered() {
    let mut ping = Ping::new(PingConfig::default(), 15);
    let peer = PeerId::random();
    let event = opened(peer, Direction::Inbound, 5);
    assert_eq!(
        ping.next_event(PingInput::Transport(event)),
        vec![PingAction::StartResponder { peer, substream: 5 }]
    );
    let actions: Vec<PingAction<usize>> =
        ping.next_event(PingInput::ResponderTerminated { peer });
    assert_eq!(actions, vec![PingAction::StopResponder { peer }]);
}

fn identify() -> Identify {
    let mut config = Config::new(vec![address("/ip4/10.0.0.1/tcp/1")]);
    assert_eq!(config.protocol, name("/ipfs/identify/1.0.0"));
    assert_eq!(config.codec, ProtocolCodec::UnsignedVarint(Some(IDENTIFY_PAYLOAD_SIZE)));
    config.public = Some(PublicKey::from_protobuf_encoding(vec![8, 1]));
    config.protocols = vec![name("/a"), name("/b")];
    Identify::new(config, vec![address("/ip4/127.0.0.1/tcp/2"), address("/ip4/10.0.0.1/tcp/1")])
}

#[test]
fn local_node_identifies_itself() {
    let mut identify = identify();
    let peer = PeerId::random();
    identify
        .on_connection_established(peer, address("/ip4/1.2.3.4/tcp/5"), Ok(SubstreamId(0)))
        .unwrap();

    let actions =
        identify.next_event(IdentifyInput::Transport(opened(peer, Direction::Inbound, 5)), Ok(SubstreamId(0)));
    assert_eq!(actions.len(), 1);
    match &actions[0] {
        IdentifyAction::Send { substream, message } => {
            assert_eq!(*substream, 5);
            assert_eq!(message.public_key, Some(vec![8, 1]));
            assert_eq!(message.observed_addr, Some(address("/ip4/1.2.3.4/tcp/5").to_vec()));
            assert_eq!(message.protocols, vec![String::from("/a"), String::from("/b")]);
            assert_eq!(message.listen_addrs.len(), 2);
            assert!(message.listen_addrs.contains(&address("/ip4/10.0.0.1/tcp/1").to_vec()));
            assert!(message.listen_addrs.contains(&address("/ip4/127.0.0.1/tcp/2").to_vec()));
        }
        _ => panic!("the local node identifies itself"),
    }

    identify.on_connection_closed(peer);
    assert_eq!(identify.on_inbound_substream(&peer).observed_addr, None);
}

#[test]
fn substream_that_cannot_be_opened_is_an_error() {
    let mut identify = identify();
    let peer = PeerId::random();
    assert_eq!(
        identify.on_connection_established(peer, Multiaddr::empty(), Err(Error::ConnectionClosed)),
        Err(Error::ConnectionClosed)
    );
    assert_eq!(identify.on_inbound_substream(&peer).observed_addr, None);
}

#[test]
fn peer_is_identified() {
    let peer = PeerId::random();
    let listen = address("/ip4/10.0.0.1/tcp/1");
    let observed = address("/ip4/1.2.3.4/tcp/5");
    let info = IdentifyMessage {
        protocol_version: None,
        agent_version: None,
        public_key: None,
        listen_addrs: vec![listen.to_vec(), vec![0xff, 0xff]],
        observed_addr: Some(observed.to_vec()),
        protocols: vec![String::from("/a"), String::from("/a")],
    };
    match on_identified(peer, &info) {
        IdentifyEvent::PeerIdentified {
            peer: identified,
            supported_protocols,
            observed_address,
            listen_addresses,
        } => {
            assert_eq!(identified, peer);
            assert!(supported_protocols.contains(&name("/a")));
            assert_eq!(supported_protocols.len(), 1);
            assert_eq!(observed_address, observed);
            assert_eq!(listen_addresses, vec![listen]);
        }
    }

    let mut identify = identify();
    let actions: Vec<IdentifyAction<usize>> =
        identify.next_event(IdentifyInput::Identified { peer, info: None }, Ok(SubstreamId(0)));
    assert_eq!(actions, vec![]);
    let event = opened(peer, Direction::Outbound(SubstreamId(0)), 6);
    let actions = identify.next_event(IdentifyInput::Transport(event), Ok(SubstreamId(0)));
    assert_eq!(actions, vec![IdentifyAction::Read { peer, substream: 6 }]);
}
