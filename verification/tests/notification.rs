//! The notification protocol.

use litep2p::address::Multiaddr;
use litep2p::error::{Error, SubstreamError};
use litep2p::peer_id::PeerId;
use litep2p::protocol::notification::state::{
    Action, HandshakeEvent, InboundState, OutboundState, PeerState,
};
use litep2p::protocol::notification::types::{
    NotificationCommand, NotificationError, NotificationEvent, ValidationResult,
};
use litep2p::protocol::notification::{NotificationProtocol, ProtocolInput};
use litep2p::protocol::{Direction, TransportEvent};
use litep2p::types::{ProtocolName, SubstreamId};

type Substream = &'static str;

fn make_notification_protocol() -> NotificationProtocol<Substream> {
    NotificationProtocol::new(vec![1, 2, 3, 4], false)
}

fn name(text: &str) -> ProtocolName {
    ProtocolName::from_name(String::from(text))
}

fn no_answer() -> Result<SubstreamId, Error> {
    Err(Error::EssentialTaskClosed)
}

fn next_inbound_state(state: usize) -> InboundState<Substream> {
    match state {
        0 => InboundState::Closed,
        1 => InboundState::ReadingHandshake,
        2 => InboundState::Validating { inbound: "inbound" },
        3 => InboundState::SendingHandshake,
        4 => InboundState::Open { inbound: "inbound" },
        _ => panic!(),
    }
}

fn next_outbound_state(state: usize) -> OutboundState<Substream> {
    match state {
        0 => OutboundState::Closed,
        1 => OutboundState::OutboundInitiated { substream: SubstreamId(0) },
        2 => OutboundState::Negotiating,
        3 => OutboundState::Open { handshake: vec![1, 3, 3, 7], outbound: "outbound" },
        _ => panic!(),
    }
}

fn reported(actions: &[Action<Substream>]) -> Vec<&NotificationEvent> {
    actions
        .iter()
        .filter_map(|action| match action {
            Action::Report(event) => Some(event),
            _ => None,
        })
        .collect()
}

// inbound state is ignored
fn connection_closed(
    peer: PeerId,
    state: PeerState<Substream>,
    event: Option<NotificationEvent>,
) {
    let mut notif = make_notification_protocol();

    notif.set_state(peer, state);
    let actions = notif.on_connection_closed(peer).unwrap();

    if let Some(expected) = event {
        assert_eq!(reported(&actions), vec![&expected]);
    }
    assert!(!notif.contains_peer(&peer))
}

#[test]
fn connection_closed_for_outbound_open_substream() {
    let peer = PeerId::random();

    for i in 0..5 {
        connection_closed(
            peer,
            PeerState::Validating {
                protocol: name("/notif/1"),
                fallback: None,
                outbound: OutboundState::Open {
                    handshake: vec![1, 2, 3, 4],
                    outbound: "outbound",
                },
                inbound: next_inbound_state(i),
            },
            Some(NotificationEvent::NotificationStreamOpenFailure {
                peer,
                error: NotificationError::Rejected,
            }),
        );
    }
}

#[test]
fn connection_closed_for_outbound_initiated_substream() {
    let peer = PeerId::random();

    for i in 0..5 {
        connection_closed(
            peer,
            PeerState::Validating {
                protocol: name("/notif/1"),
                fallback: None,
                outbound: OutboundState::OutboundInitiated { substream: SubstreamId(0) },
                inbound: next_inbound_state(i),
            },
            Some(NotificationEvent::NotificationStreamOpenFailure {
                peer,
                error: NotificationError::Rejected,
            }),
        );
    }
}

#[test]
fn connection_closed_for_outbound_negotiated_substream() {
    let peer = PeerId::random();

    for i in 0..5 {
        connection_closed(
            peer,
            PeerState::Validating {
                protocol: name("/notif/1"),
                fallback: None,
                outbound: OutboundState::Negotiating,
                inbound: next_inbound_state(i),
            },
            Some(NotificationEvent::NotificationStreamOpenFailure {
                peer,
                error: NotificationError::Rejected,
            }),
        );
    }
}

#[test]
fn connection_closed_for_open_notification_stream() {
    let peer = PeerId::random();

    connection_closed(
        peer,
        PeerState::Open,
        Some(NotificationEvent::NotificationStreamClosed { peer }),
    );
}

#[test]
fn connection_closed_for_initiated_substream() {
    let peer = PeerId::random();

    connection_closed(
        peer,
        PeerState::OutboundInitiated { substream: SubstreamId(0) },
        Some(NotificationEvent::NotificationStreamOpenFailure {
            peer,
            error: NotificationError::Rejected,
        }),
    );
}

// register new connection to `NotificationProtocol`
fn register_peer(notif: &mut NotificationProtocol<Substream>) -> PeerId {
    let peer = PeerId::random();

    // poll the protocol to register the peer
    notif.next_event(
        ProtocolInput::Transport(TransportEvent::ConnectionEstablished {
            peer,
            address: Multiaddr::empty(),
        }),
        no_answer(),
    );

    assert!(matches!(notif.peer_state(&peer), Some(PeerState::Closed { .. })));

    peer
}

fn open_substream(state: PeerState<Substream>, succeeds: bool) {
    let mut notif = make_notification_protocol();
    let peer = register_peer(&mut notif);

    let expected = match state {
        PeerState::Open => vec![Action::Shutdown { peer }],
        _ => vec![],
    };
    notif.set_state(peer, state);

    assert!(notif.opens_substream(&peer) == succeeds);
    let (result, actions) = notif.on_open_substream(peer, Ok(SubstreamId(0)));
    result.unwrap();
    assert_eq!(actions, expected);
    if succeeds {
        assert_eq!(
            notif.peer_state(&peer),
            Some(&PeerState::OutboundInitiated { substream: SubstreamId(0) })
        );
    }
}

#[test]
fn open_substream_connection_closed() {
    open_substream(PeerState::Closed { pending_open: None }, true);
}

#[test]
fn open_substream_already_initiated() {
    open_substream(PeerState::OutboundInitiated { substream: SubstreamId(0) }, false);
}

#[test]
fn open_substream_already_open() {
    open_substream(PeerState::Open, false);
}

#[test]
fn open_substream_under_validation() {
    for i in 0..5 {
        for k in 0..4 {
            open_substream(
                PeerState::Validating {
                    protocol: name("/notif/1"),
                    fallback: None,
                    outbound: next_outbound_state(k),
                    inbound: next_inbound_state(i),
                },
                false,
            );
        }
    }
}

#[test]
fn open_substream_no_connection() {
    let mut notif = make_notification_protocol();
    let peer = PeerId::random();
    let (result, actions) = notif.on_open_substream(peer, no_answer());
    assert!(result.is_err());
    assert_eq!(
        reported(&actions),
        vec![&NotificationEvent::NotificationStreamOpenFailure {
            peer,
            error: NotificationError::NoConnection,
        }]
    );
}

#[test]
fn remote_opens_multiple_inbound_substreams() {
    let protocol = name("/notif/1");
    let mut notif = make_notification_protocol();
    let peer = register_peer(&mut notif);

    // open substream, poll the result and verify that the peer is in correct state
    notif.next_event(
        ProtocolInput::Transport(TransportEvent::SubstreamOpened {
            peer,
            protocol: protocol.clone(),
            fallback: None,
            direction: Direction::Inbound,
            substream: "first",
        }),
        no_answer(),
    );

    match notif.peer_state(&peer) {
        Some(PeerState::Validating {
            protocol,
            fallback: None,
            outbound: OutboundState::Closed,
            inbound: InboundState::ReadingHandshake,
        }) => {
            assert_eq!(protocol, &name("/notif/1"));
        }
        state => panic!("invalid state: {state:?}"),
    }

    // try to open another substream and verify it's discarded and the state is otherwise preserved
    let actions = notif.next_event(
        ProtocolInput::Transport(TransportEvent::SubstreamOpened {
            peer,
            protocol: protocol.clone(),
            fallback: None,
            direction: Direction::Inbound,
            substream: "second",
        }),
        no_answer(),
    );
    assert_eq!(actions, vec![Action::CloseSubstream { substream: "second" }]);

    match notif.peer_state(&peer) {
        Some(PeerState::Validating {
            protocol,
            fallback: None,
            outbound: OutboundState::Closed,
            inbound: InboundState::ReadingHandshake,
        }) => {
            assert_eq!(protocol, &name("/notif/1"));
        }
        state => panic!("invalid state: {state:?}"),
    }
}

#[test]
fn non_existent_peer() {
    let mut notif = make_notification_protocol();
    let (result, actions) =
        notif.on_validation_result(PeerId::random(), ValidationResult::Accept, no_answer());

    assert!(matches!(result, Err(Error::PeerDoesntExist(_))));
    assert!(actions.is_empty());
}

// connect a peer whose inbound substream is under validation
fn under_validation() -> (NotificationProtocol<Substream>, PeerId) {
    let mut notif = make_notification_protocol();
    let peer = PeerId::random();

    // connect peer and verify it's in closed state
    notif.on_connection_established(peer).unwrap();
    match notif.peer_state(&peer).unwrap() {
        PeerState::Closed { .. } => {}
        _ => panic!("invalid state for peer"),
    }

    // open inbound substream, whose handshake is read
    let actions = notif.on_inbound_substream(name("/notif/1"), None, peer, "inbound");
    assert_eq!(actions, vec![Action::ReadHandshake { peer, substream: "inbound" }]);

    // user protocol receives the handshake
    let actions = notif.on_handshake_event(
        peer,
        HandshakeEvent::InboundNegotiated { handshake: b"hello".to_vec(), substream: "inbound" },
    );
    assert_eq!(
        reported(&actions),
        vec![&NotificationEvent::ValidateSubstream {
            protocol: name("/notif/1"),
            fallback: None,
            peer,
            handshake: b"hello".to_vec(),
        }]
    );
    match notif.peer_state(&peer).unwrap() {
        PeerState::Validating { inbound: InboundState::Validating { .. }, .. } => {}
        _ => panic!("invalid state for peer"),
    }
    (notif, peer)
}

#[test]
fn substream_accepted() {
    let (mut notif, peer) = under_validation();

    // protocol asks for outbound substream to be opened and its state is changed accordingly
    assert!(notif.verdict_opens_substream(&peer, &ValidationResult::Accept));
    let (result, actions) =
        notif.on_validation_result(peer, ValidationResult::Accept, Ok(SubstreamId(0)));
    result.unwrap();
    assert_eq!(actions, vec![Action::SendHandshake { peer, substream: "inbound" }]);

    match notif.peer_state(&peer).unwrap() {
        PeerState::Validating {
            outbound: OutboundState::OutboundInitiated { substream },
            inbound: InboundState::SendingHandshake,
            ..
        } => assert_eq!(*substream, SubstreamId(0)),
        _ => panic!("invalid state for peer"),
    }
}

#[test]
fn substream_rejected() {
    let (mut notif, peer) = under_validation();

    // substream is rejected so no outbound substream is opened and peer is converted to closed
    // state
    assert!(!notif.verdict_opens_substream(&peer, &ValidationResult::Reject));
    let (result, actions) =
        notif.on_validation_result(peer, ValidationResult::Reject, no_answer());
    result.unwrap();
    assert!(actions.contains(&Action::CloseSubstream { substream: "inbound" }));
    assert!(reported(&actions).is_empty());

    match notif.peer_state(&peer).unwrap() {
        PeerState::Closed { .. } => {}
        _ => panic!("invalid state for peer"),
    }
}

#[test]
fn accept_fails_due_to_closed_substream() {
    let (mut notif, peer) = under_validation();
    let (result, actions) =
        notif.on_validation_result(peer, ValidationResult::Accept, Ok(SubstreamId(0)));
    result.unwrap();
    assert_eq!(actions, vec![Action::SendHandshake { peer, substream: "inbound" }]);

    // substream is not writable so the connection is marked as closed
    let actions = notif.on_handshake_event(peer, HandshakeEvent::NegotiationError);
    assert_eq!(
        reported(&actions),
        vec![&NotificationEvent::NotificationStreamOpenFailure {
            peer,
            error: NotificationError::Rejected,
        }]
    );
    match notif.peer_state(&peer).unwrap() {
        PeerState::Closed { pending_open } => assert_eq!(*pending_open, Some(SubstreamId(0))),
        _ => panic!("invalid state for peer"),
    }

    // the substream that was asked for is closed should it open after all
    let actions =
        notif.on_outbound_substream(name("/notif/1"), None, peer, SubstreamId(0), "outbound");
    assert_eq!(actions, vec![Action::CloseSubstream { substream: "outbound" }]);
    assert_eq!(notif.peer_state(&peer), Some(&PeerState::Closed { pending_open: None }));
}

#[test]
fn stream_can_be_opened_after_a_rejection() {
    let mut notif = make_notification_protocol();
    let peer = register_peer(&mut notif);
    notif.on_open_substream(peer, Ok(SubstreamId(4))).0.unwrap();
    notif.on_outbound_substream(name("/notif/1"), None, peer, SubstreamId(4), "outbound");
    notif.on_handshake_event(peer, HandshakeEvent::NegotiationError);
    assert_eq!(notif.peer_state(&peer), Some(&PeerState::Closed { pending_open: None }));

    assert!(notif.opens_substream(&peer));
    notif.on_open_substream(peer, Ok(SubstreamId(5))).0.unwrap();
    assert_eq!(
        notif.peer_state(&peer),
        Some(&PeerState::OutboundInitiated { substream: SubstreamId(5) })
    );
}

#[test]
fn opening_an_open_stream_ends_its_connection() {
    let (mut notif, peer) = under_validation();
    notif
        .on_validation_result(peer, ValidationResult::Accept, Ok(SubstreamId(0)))
        .0
        .unwrap();
    notif.on_outbound_substream(name("/notif/1"), None, peer, SubstreamId(0), "outbound");
    notif.on_handshake_event(
        peer,
        HandshakeEvent::OutboundNegotiated { handshake: vec![1], substream: "outbound" },
    );
    notif.on_handshake_event(
        peer,
        HandshakeEvent::InboundNegotiated { handshake: vec![2], substream: "inbound" },
    );
    assert_eq!(notif.peer_state(&peer), Some(&PeerState::Open));

    let (result, actions) = notif.on_open_substream(peer, no_answer());
    result.unwrap();
    assert_eq!(actions, vec![Action::Shutdown { peer }]);
}

#[test]
fn accept_fails_due_to_closed_connection() {
    let (mut notif, peer) = under_validation();

    // the connection is gone: the protocol marks the connection as closed
    let closed = || Error::SubstreamError(SubstreamError::ConnectionClosed);
    let (result, actions) =
        notif.on_validation_result(peer, ValidationResult::Accept, Err(closed()));
    assert_eq!(result, Err(closed()));
    assert!(actions.iter().all(|action| !matches!(action, Action::SendHandshake { .. })));

    match notif.peer_state(&peer).unwrap() {
        PeerState::Closed { .. } => {}
        _ => panic!("invalid state for peer"),
    }
}

#[test]
fn stream_opens_when_both_substreams_are_open() {
    let (mut notif, peer) = under_validation();
    let (result, _) =
        notif.on_validation_result(peer, ValidationResult::Accept, Ok(SubstreamId(3)));
    result.unwrap();
    let actions = notif.on_handshake_event(
        peer,
        HandshakeEvent::InboundNegotiated { handshake: b"hello".to_vec(), substream: "inbound" },
    );
    assert!(reported(&actions).is_empty());
    let actions = notif.next_event(
        ProtocolInput::Transport(TransportEvent::SubstreamOpened {
            peer,
            protocol: name("/notif/1"),
            fallback: None,
            direction: Direction::Outbound(SubstreamId(3)),
            substream: "outbound",
        }),
        no_answer(),
    );
    assert_eq!(actions, vec![Action::NegotiateOutbound { peer, substream: "outbound" }]);
    let actions = notif.next_event(
        ProtocolInput::Handshake {
            peer,
            event: HandshakeEvent::OutboundNegotiated {
                handshake: b"world".to_vec(),
                substream: "outbound",
            },
        },
        no_answer(),
    );
    assert_eq!(
        actions,
        vec![
            Action::RemoveOutbound { peer },
            Action::StartConnection { peer, inbound: "inbound", outbound: "outbound" },
            Action::Report(NotificationEvent::NotificationStreamOpened {
                protocol: name("/notif/1"),
                fallback: None,
                peer,
                handshake: b"world".to_vec(),
            }),
        ]
    );
    assert_eq!(notif.peer_state(&peer), Some(&PeerState::Open));

    // the user closes it
    let actions = notif.next_event(
        ProtocolInput::Command(NotificationCommand::CloseSubstream { peer }),
        no_answer(),
    );
    assert_eq!(
        actions,
        vec![
            Action::Shutdown { peer },
            Action::Report(NotificationEvent::NotificationStreamClosed { peer }),
        ]
    );
    assert_eq!(notif.peer_state(&peer), Some(&PeerState::Closed { pending_open: None }));
}

#[test]
fn inbound_substream_is_accepted_by_itself() {
    let mut notif: NotificationProtocol<Substream> = NotificationProtocol::new(vec![1], true);
    let peer = register_peer(&mut notif);
    let (result, _) = notif.on_open_substream(peer, Ok(SubstreamId(0)));
    result.unwrap();
    notif.on_inbound_substream(name("/notif/1"), None, peer, "inbound");
    let actions = notif.on_handshake_event(
        peer,
        HandshakeEvent::InboundNegotiated { handshake: vec![9], substream: "inbound" },
    );
    assert_eq!(
        actions,
        vec![
            Action::RemoveInbound { peer },
            Action::SendHandshake { peer, substream: "inbound" },
        ]
    );
}

#[test]
fn connection_established_to_a_known_peer() {
    let mut notif = make_notification_protocol();
    let peer = PeerId::random();
    notif.on_connection_established(peer).unwrap();
    assert_eq!(notif.on_connection_established(peer), Err(Error::PeerAlreadyExists(peer)));
}

#[test]
fn connection_closed_to_an_unknown_peer() {
    let mut notif = make_notification_protocol();
    let peer = PeerId::random();
    assert_eq!(notif.on_connection_closed(peer), Err(Error::PeerDoesntExist(peer)));
}

#[test]
fn substream_open_failure_is_reported() {
    let mut notif = make_notification_protocol();
    let peer = register_peer(&mut notif);
    let (result, _) = notif.on_open_substream(peer, Ok(SubstreamId(4)));
    result.unwrap();
    let actions = notif.on_substream_open_failure(SubstreamId(4));
    assert_eq!(
        reported(&actions),
        vec![&NotificationEvent::NotificationStreamOpenFailure {
            peer,
            error: NotificationError::Rejected,
        }]
    );
    assert_eq!(notif.peer_state(&peer), Some(&PeerState::Closed { pending_open: None }));
    // nothing is known of the substream any more
    assert!(notif.on_substream_open_failure(SubstreamId(4)).is_empty());
}

#[test]
fn substream_open_failure_ends_the_negotiation() {
    let mut notif = make_notification_protocol();
    let peer = register_peer(&mut notif);
    let (result, _) = notif.on_open_substream(peer, Ok(SubstreamId(4)));
    result.unwrap();
    notif.on_inbound_substream(name("/notif/1"), None, peer, "inbound");
    let actions = notif.on_substream_open_failure(SubstreamId(4));
    assert_eq!(actions[0], Action::RemoveInbound { peer });
    assert_eq!(actions[1], Action::RemoveOutbound { peer });
    assert_eq!(
        reported(&actions),
        vec![&NotificationEvent::NotificationStreamOpenFailure {
            peer,
            error: NotificationError::Rejected,
        }]
    );
}
