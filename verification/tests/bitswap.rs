//! Bitswap.

use litep2p::address::Multiaddr;
use litep2p::error::{Error, SubstreamError};
use litep2p::peer_id::{Multihash, PeerId, IDENTITY, SHA2_256};
use litep2p::protocol::libp2p::bitswap::config::{
    BitswapConfig, BitswapConfigBuilder, PAYLOAD_SIZE,
};
use litep2p::protocol::libp2p::bitswap::content_id::{Cid, Version, DAG_PB};
use litep2p::protocol::libp2p::bitswap::handle::{
    BitswapCommand, BitswapEvent, BlockPresenceType, ResponseType, WantType,
};
use litep2p::protocol::libp2p::bitswap::message::{
    on_message_received, request_message, response_message,
};
use litep2p::protocol::libp2p::bitswap::metrics::BitswapMetrics;
use litep2p::protocol::libp2p::bitswap::prefix::Prefix;
use litep2p::protocol::libp2p::bitswap::schema::{Block, BlockPresence, Entry, Message, Wantlist};
use litep2p::protocol::libp2p::bitswap::{
    send_result, Action, Bitswap, BitswapInput, DialOutcome, SubstreamAction, WriteOutcome,
};
use litep2p::protocol::{Direction, ProtocolCodec, TransportEvent};
use litep2p::types::{ProtocolName, SubstreamId};

const RAW: u64 = 0x55;

fn sha256(data: &[u8]) -> Multihash {
    let digest = <sha2::Sha256 as sha2::Digest>::digest(data);
    Multihash::wrap(SHA2_256, digest.as_slice()).unwrap()
}

fn cid(data: &[u8]) -> Cid {
    Cid::new(Version::V1, RAW, sha256(data)).unwrap()
}

#[test]
fn cid_is_read_as_it_was_written() {
    let cid = cid(b"hello");
    let bytes = cid.to_bytes();
    assert_eq!(&bytes[..4], &[1, 0x55, 0x12, 32]);
    assert_eq!(Cid::read_bytes(&bytes), Some(cid));

    let v0 = Cid::new(Version::V0, DAG_PB, sha256(b"hello")).unwrap();
    let bytes = v0.to_bytes();
    assert_eq!(&bytes[..2], &[0x12, 32]);
    assert_eq!(Cid::read_bytes(&bytes), Some(v0));
    assert_eq!(v0.version(), Version::V0);
    assert_eq!(v0.codec(), DAG_PB);
    assert_eq!(v0.hash(), sha256(b"hello"));

    assert_eq!(Cid::read_bytes(&[9, 9]), None);
}

#[test]
fn cid_of_the_first_version_has_one_form() {
    assert!(Cid::new(Version::V0, RAW, sha256(b"hello")).is_none());
    let inline = Multihash::wrap(IDENTITY, &[1, 2, 3]).unwrap();
    assert!(Cid::new(Version::V0, DAG_PB, inline).is_none());
    assert!(Cid::new(Version::V1, DAG_PB, inline).is_some());
    assert_eq!(Version::V1.number(), 1);
    assert_eq!(Version::from_number(0), Some(Version::V0));
    assert_eq!(Version::from_number(2), None);
}

#[test]
fn prefix_is_read_as_it_was_written() {
    let prefix = Prefix { version: Version::V1, codec: RAW, multihash_type: SHA2_256, multihash_len: 32 };
    assert_eq!(prefix.to_bytes(), vec![1, 0x55, 0x12, 32]);
    assert_eq!(Prefix::from_bytes(&prefix.to_bytes()), Some(prefix));

    let long = Prefix { version: Version::V1, codec: 300, multihash_type: 0xb220, multihash_len: 200 };
    assert_eq!(long.to_bytes(), vec![1, 0xac, 0x02, 0xa0, 0xe4, 0x02, 0xc8, 0x01]);
    assert_eq!(Prefix::from_bytes(&long.to_bytes()), Some(long));
}

#[test]
fn bytes_that_are_no_prefix() {
    // too short, an unknown version, and a length that is too long
    assert_eq!(Prefix::from_bytes(&[1, 0x55, 0x12]), None);
    assert_eq!(Prefix::from_bytes(&[7, 0x55, 0x12, 32]), None);
    assert_eq!(Prefix::from_bytes(&[1, 0x55, 0x12, 0x80, 0x02]), None);
}

#[test]
fn request_is_understood() {
    let peer = PeerId::random();
    let cids = vec![(cid(b"a"), WantType::Block), (cid(b"b"), WantType::Have)];
    let message = request_message(&cids);
    assert_eq!(message.wantlist.as_ref().unwrap().entries.len(), 2);
    assert_eq!(message.wantlist.as_ref().unwrap().entries[1].want_type, 1);
    assert_eq!(on_message_received(peer, &message), vec![BitswapEvent::Request { peer, cids }]);
}

#[test]
fn response_is_understood() {
    let peer = PeerId::random();
    let responses = vec![
        ResponseType::Block { cid: cid(b"hello"), block: b"hello".to_vec() },
        ResponseType::Presence { cid: cid(b"world"), presence: BlockPresenceType::DontHave },
    ];
    let message = response_message(&responses);
    assert_eq!(message.payload[0].prefix, vec![1, 0x55, 0x12, 32]);
    assert_eq!(on_message_received(peer, &message), vec![BitswapEvent::Response { peer, responses }]);
}

#[test]
fn block_gets_the_cid_of_its_data() {
    let peer = PeerId::random();
    let message = Message {
        wantlist: None,
        payload: vec![Block { prefix: vec![1, 0x55, 0x12, 32], data: b"tampered".to_vec() }],
        block_presences: vec![],
    };
    assert_eq!(
        on_message_received(peer, &message),
        vec![BitswapEvent::Response {
            peer,
            responses: vec![ResponseType::Block {
                cid: cid(b"tampered"),
                block: b"tampered".to_vec(),
            }],
        }]
    );
}

#[test]
fn what_is_not_understood_is_left_out() {
    let peer = PeerId::random();
    let entry = |block: Vec<u8>, want_type: i32| Entry {
        block,
        priority: 1,
        cancel: false,
        want_type,
        send_dont_have: false,
    };
    let message = Message {
        wantlist: Some(Wantlist {
            entries: vec![entry(vec![1, 2], 0), entry(cid(b"a").to_bytes(), 7)],
            full: false,
        }),
        payload: vec![Block { prefix: vec![1], data: vec![] }],
        block_presences: vec![BlockPresence { cid: cid(b"a").to_bytes(), presence_type: 9 }],
    };
    assert_eq!(on_message_received(peer, &message), vec![]);
}

#[test]
fn requests_wait_for_a_substream() {
    let mut bitswap = Bitswap::new();
    let peer = PeerId::random();
    let cids = vec![(cid(b"a"), WantType::Block)];
    let command = |cids: &Vec<(Cid, WantType)>| BitswapInput::<usize>::Command(
        BitswapCommand::SendRequest { peer, cids: cids.clone() },
    );

    let actions = bitswap.next_event(command(&cids));
    assert_eq!(actions, vec![Action::OpenSubstreamOrDial { peer }]);
    // a substream has been asked for
    let actions = bitswap.next_event(command(&cids));
    assert_eq!(actions, vec![]);

    // the peer is dialed, and the substream opened once there is a connection
    let actions: Vec<Action<usize>> = bitswap.next_event(BitswapInput::Opened {
        peer,
        opened: false,
        dialed: DialOutcome::Started,
    });
    assert_eq!(actions, vec![]);
    let actions: Vec<Action<usize>> = bitswap.next_event(BitswapInput::Transport(
        TransportEvent::ConnectionEstablished { peer, address: Multiaddr::empty() },
    ));
    assert_eq!(actions, vec![Action::OpenSubstream { peer }]);

    let actions = bitswap.next_event(BitswapInput::Transport(TransportEvent::SubstreamOpened {
        peer,
        protocol: ProtocolName::from_name(String::from("/ipfs/bitswap/1.2.0")),
        fallback: None,
        direction: Direction::Outbound(SubstreamId(0)),
        substream: 5usize,
    }));
    assert_eq!(
        actions,
        vec![Action::SendAll {
            peer,
            substream: 5,
            actions: vec![
                SubstreamAction::SendRequest(cids.clone()),
                SubstreamAction::SendRequest(cids.clone()),
            ],
        }]
    );
    let actions: Vec<Action<usize>> =
        bitswap.next_event(BitswapInput::AllSent { peer, sent: true });
    assert_eq!(actions, vec![]);
    assert!(bitswap.has_outbound(&peer));

    // from now on requests are sent at once, and wait again where that fails
    let actions = bitswap.next_event(command(&cids));
    let action = SubstreamAction::SendRequest(cids.clone());
    assert_eq!(actions, vec![Action::Send { peer, action }]);
    let action = SubstreamAction::SendRequest(cids.clone());
    let actions: Vec<Action<usize>> =
        bitswap.next_event(BitswapInput::Sent { peer, action, sent: false });
    assert_eq!(actions, vec![Action::OpenSubstreamOrDial { peer }]);
    assert!(!bitswap.has_outbound(&peer));
}

#[test]
fn messages_are_reported() {
    let mut bitswap = Bitswap::new();
    let peer = PeerId::random();
    let cids = vec![(cid(b"a"), WantType::Have)];
    let message = SubstreamAction::SendRequest(cids.clone()).message();
    let actions: Vec<Action<usize>> =
        bitswap.next_event(BitswapInput::Inbound { peer, message: Some(message) });
    assert_eq!(actions, vec![Action::Report(BitswapEvent::Request { peer, cids })]);
    let actions: Vec<Action<usize>> =
        bitswap.next_event(BitswapInput::Inbound { peer, message: None });
    assert_eq!(actions, vec![Action::DropInbound { peer }]);
}

#[test]
fn outcomes_of_writing() {
    assert_eq!(send_result(WriteOutcome::Sent), Ok(()));
    assert_eq!(send_result(WriteOutcome::TimedOut), Err(Error::Timeout));
    assert_eq!(
        send_result(WriteOutcome::Failed(SubstreamError::WriteFailure)),
        Err(Error::SubstreamError(SubstreamError::WriteFailure))
    );
}

#[test]
fn configuration_of_bitswap() {
    let config: BitswapConfig = BitswapConfigBuilder::new().build();
    assert_eq!(config.protocol_name.as_str(), "/ipfs/bitswap/1.2.0");
    assert_eq!(config.codec, ProtocolCodec::UnsignedVarint(Some(PAYLOAD_SIZE)));
    let builder = BitswapConfigBuilder {
        protocol_name: ProtocolName::from_name(String::from("/other/bitswap")),
    };
    assert_eq!(builder.build().protocol_name.as_str(), "/other/bitswap");
}

#[test]
fn metrics_count() {
    let mut metrics = BitswapMetrics::new();
    assert_eq!(metrics, BitswapMetrics::default());
    metrics.on_request_received(3);
    metrics.on_request_received(2);
    metrics.on_blocks_sent(2, 100);
    metrics.on_presences_sent(5, 1);
    metrics.on_request_sent();
    metrics.on_response_received(4, 50);
    assert_eq!(metrics.requests_received(), 2);
    assert_eq!(metrics.cids_requested(), 5);
    assert_eq!(metrics.blocks_sent(), 2);
    assert_eq!(metrics.blocks_sent_bytes(), 100);
    assert_eq!(metrics.presences_sent(), 5);
    assert_eq!(metrics.dont_have_sent(), 1);
    assert_eq!(metrics.requests_sent(), 1);
    assert_eq!(metrics.responses_received(), 1);
    assert_eq!(metrics.blocks_received(), 4);
    assert_eq!(metrics.blocks_received_bytes(), 50);
}
