//! The request-response protocol.

use litep2p::address::Multiaddr;
use litep2p::error::{Error, NegotiationError, SubstreamError};
use litep2p::peer_id::PeerId;
use litep2p::protocol::request_response::config::{
    ConfigBuilder, RequestResponseConfig, REQUEST_TIMEOUT,
};
use litep2p::protocol::request_response::handle::{
    DialOptions, RequestResponseCommand, RequestResponseError, RequestResponseEvent,
};
use litep2p::protocol::request_response::service::{
    RequestResponseService, ServiceAction, ServiceEvent, TransportCommand,
};
use litep2p::protocol::request_response::state::{Action, Answers, ProtocolInput};
use litep2p::protocol::request_response::task::{reply, send_failure, ReplyEvent, SendOutcome};
use litep2p::protocol::request_response::RequestResponseProtocol;
use litep2p::protocol::{Direction, ProtocolCodec, TransportEvent};
use litep2p::types::{ProtocolName, RequestId, SubstreamId};

type Actions = Vec<Action<usize>>;

fn name(text: &str) -> ProtocolName {
    ProtocolName::from_name(String::from(text))
}

// create new protocol for testing
fn protocol() -> RequestResponseProtocol {
    let (config, _handle) = ConfigBuilder::new(name("/req/1")).with_max_size(1024).build();
    RequestResponseProtocol::new(config)
}

fn connect(protocol: &mut RequestResponseProtocol) -> PeerId {
    let peer = PeerId::random();
    let actions: Actions = protocol.on_connection_established(peer, None).unwrap();
    assert!(actions.is_empty());
    assert!(protocol.contains_peer(&peer));
    peer
}

fn failed(peer: PeerId, request_id: usize, error: RequestResponseError) -> Action<usize> {
    Action::Report(RequestResponseEvent::RequestFailed {
        peer,
        request_id: RequestId(request_id),
        error,
    })
}

#[test]
#[should_panic]
fn connection_closed_twice() {
    let mut protocol = protocol();

    let peer = connect(&mut protocol);

    let _actions: Actions = protocol.on_connection_established(peer, None).unwrap();
}

#[test]
fn connection_to_a_known_peer_is_refused() {
    let mut protocol = protocol();
    let peer = connect(&mut protocol);
    let result: Result<Actions, Error> = protocol.on_connection_established(peer, None);
    assert_eq!(result, Err(Error::PeerAlreadyExists(peer)));
}

#[test]
fn connection_of_an_unknown_peer_closes() {
    let mut protocol = protocol();
    let peer = connect(&mut protocol);

    let actions: Actions = protocol.on_connection_closed(peer);
    assert!(actions.is_empty());
    assert!(!protocol.contains_peer(&peer));

    let actions: Actions = protocol.on_connection_closed(peer);
    assert!(actions.is_empty());
}

#[test]
fn unknown_outbound_substream_opens() {
    let mut protocol = protocol();
    let peer = PeerId::random();

    match protocol.on_outbound_substream(peer, SubstreamId(1337), 0usize, None) {
        Err(Error::InvalidState) => {}
        _ => panic!("invalid return value"),
    }
}

#[test]
fn unknown_substream_fails_to_open() {
    let mut protocol = protocol();

    let result: Result<Actions, Error> =
        protocol.on_substream_open_failure(SubstreamId(1338), Error::ConnectionClosed);
    match result {
        Err(Error::InvalidState) => {}
        _ => panic!("invalid return value"),
    }
}

#[test]
fn cancel_unknown_request() {
    let mut protocol = protocol();

    let actions: Actions = protocol.on_cancel_request(RequestId(1337));
    assert!(actions.is_empty());
}

#[test]
fn substream_event_for_unknown_peer() {
    let mut protocol = protocol();

    // register peer
    let peer = connect(&mut protocol);

    let result: Result<Actions, Error> =
        protocol.on_substream_event(peer, RequestId(1337), None, Ok(vec![13, 37]));
    match result {
        Err(Error::InvalidState) => {}
        _ => panic!("invalid return value"),
    }
}

#[test]
fn inbound_substream_error() {
    let mut protocol = protocol();

    // register peer
    let peer = connect(&mut protocol);

    // register inbound substream from peer
    let actions = protocol.on_inbound_substream(peer, None, 5usize, RequestId(0)).unwrap();

    // verify the request has been registered for the peer
    assert_eq!(
        actions,
        vec![Action::ReadRequest { peer, request_id: RequestId(0), substream: 5 }]
    );

    // poll the substream and get the failure event
    let (result, actions): (Result<(), Error>, Actions) = protocol.on_inbound_request(
        peer,
        RequestId(0),
        Err(Error::SubstreamError(SubstreamError::ReadFailure(None))),
    );
    match result {
        Err(Error::InvalidData) => {}
        _ => panic!("invalid return value"),
    }
    assert!(actions.iter().all(|action| !matches!(action, Action::Report(_))));
}

// when a peer who had an active inbound substream disconnects, verify that the substream is removed
// so it doesn't generate new wake-up notifications
#[test]
fn disconnect_peer_has_active_inbound_substream() {
    let mut protocol = protocol();

    // register new peer
    let peer = connect(&mut protocol);

    // register inbound substream from peer
    protocol.on_inbound_substream(peer, None, 5usize, RequestId(0)).unwrap();

    // disconnect the peer and verify that no events are reported since no outbound request was
    // initiated, and that the substream is removed
    let actions: Actions = protocol.on_connection_closed(peer);
    assert_eq!(actions, vec![Action::DiscardRequest { peer, request_id: RequestId(0) }]);
}

// when user initiates an outbound request and `RequestResponseProtocol` tries to open an outbound
// substream to them and it fails, the failure should be reported to the user. When the remote peer
// later disconnects, this failure should not be reported again.
#[test]
fn request_failure_reported_once() {
    let mut protocol = protocol();

    // register new peer
    let peer = connect(&mut protocol);

    // initiate outbound request, opening substream to the peer fails
    let actions: Actions = protocol.on_send_request(
        peer,
        RequestId(1337),
        vec![1, 2, 3, 4],
        DialOptions::Reject,
        None,
        None,
        false,
    );

    assert_eq!(actions, vec![failed(peer, 1337, RequestResponseError::Rejected)]);

    // disconnect the peer and verify that no events are reported since the outbound request
    // failure was already reported
    let actions: Actions = protocol.on_connection_closed(peer);
    assert!(actions.is_empty());
}

// a connection that was dialed is gone before the request can be sent
#[test]
fn stale_connection_fails_the_request() {
    let mut protocol = protocol();
    let peer = PeerId::random();

    // initiate outbound request and instruct the protocol to dial the peer
    let actions: Actions = protocol.on_send_request(
        peer,
        RequestId(1337),
        vec![1, 2, 3, 4],
        DialOptions::Dial,
        None,
        None,
        true,
    );
    assert!(actions.is_empty());
    assert!(protocol.is_dialing(&peer));

    let actions: Actions = protocol.next_event(
        ProtocolInput::Transport(TransportEvent::ConnectionEstablished {
            peer,
            address: Multiaddr::empty(),
        }),
        Answers { request_id: RequestId(0), opened: None, dialed: false },
    );
    assert_eq!(actions, vec![failed(peer, 1337, RequestResponseError::Rejected)]);
}

#[test]
fn request_is_answered() {
    let mut protocol = protocol();
    let peer = connect(&mut protocol);

    let actions: Actions = protocol.on_send_request(
        peer,
        RequestId(1),
        vec![1, 2, 3, 4],
        DialOptions::Reject,
        None,
        Some(SubstreamId(9)),
        false,
    );
    assert!(actions.is_empty());

    let actions = protocol.on_outbound_substream(peer, SubstreamId(9), 5usize, None).unwrap();
    assert_eq!(
        actions,
        vec![Action::SendRequest {
            peer,
            request_id: RequestId(1),
            fallback: None,
            request: vec![1, 2, 3, 4],
            substream: 5,
        }]
    );

    let actions: Actions =
        protocol.on_substream_event(peer, RequestId(1), None, Ok(vec![5, 6])).unwrap();
    assert_eq!(
        actions,
        vec![Action::Report(RequestResponseEvent::ResponseReceived {
            peer,
            request_id: RequestId(1),
            fallback: None,
            response: vec![5, 6],
        })]
    );
}

#[test]
fn fallback_request_is_sent_over_its_protocol() {
    let mut protocol = protocol();
    let peer = connect(&mut protocol);
    for (id, negotiated, expected) in [
        (1usize, None, vec![1u8]),
        (2, Some(name("/req/0")), vec![2]),
        (3, Some(name("/req/other")), vec![1]),
    ] {
        let actions: Actions = protocol.on_send_request(
            peer,
            RequestId(id),
            vec![1],
            DialOptions::Reject,
            Some((name("/req/0"), vec![2])),
            Some(SubstreamId(id)),
            false,
        );
        assert!(actions.is_empty());
        let actions =
            protocol.on_outbound_substream(peer, SubstreamId(id), 5usize, negotiated).unwrap();
        match &actions[0] {
            Action::SendRequest { request, .. } => assert_eq!(request, &expected),
            _ => panic!("the request is to be sent"),
        }
    }
}

#[test]
fn request_to_a_peer_that_is_not_connected() {
    let mut protocol = protocol();
    let peer = PeerId::random();
    let mut send = |id: usize, options: DialOptions, dialed: bool| -> Actions {
        protocol.on_send_request(peer, RequestId(id), vec![1], options, None, None, dialed)
    };
    assert_eq!(
        send(1, DialOptions::Reject, false),
        vec![failed(peer, 1, RequestResponseError::NotConnected)]
    );
    assert_eq!(
        send(2, DialOptions::Dial, false),
        vec![failed(peer, 2, RequestResponseError::Rejected)]
    );
    assert_eq!(send(3, DialOptions::Dial, true), vec![]);
    assert!(protocol.is_dialing(&peer));
    let actions: Actions = protocol.on_dial_failure(peer);
    assert_eq!(actions, vec![failed(peer, 3, RequestResponseError::Rejected)]);
    assert!(!protocol.is_dialing(&peer));
}

#[test]
fn unsupported_protocol_is_told() {
    let mut protocol = protocol();
    let peer = connect(&mut protocol);
    let _: Actions = protocol.on_send_request(
        peer,
        RequestId(1),
        vec![1],
        DialOptions::Reject,
        None,
        Some(SubstreamId(0)),
        false,
    );
    let actions: Actions = protocol
        .on_substream_open_failure(
            SubstreamId(0),
            Error::SubstreamError(SubstreamError::NegotiationError(
                NegotiationError::MultistreamSelectFailed,
            )),
        )
        .unwrap();
    assert_eq!(actions, vec![failed(peer, 1, RequestResponseError::UnsupportedProtocol)]);
}

#[test]
fn inbound_requests_are_bounded() {
    let (config, _) = ConfigBuilder::new(name("/req/1"))
        .with_max_concurrent_inbound_requests(1)
        .build();
    let mut protocol = RequestResponseProtocol::new(config);
    let peer = connect(&mut protocol);

    assert!(protocol.has_capacity());
    protocol.on_inbound_substream(peer, None, 5usize, RequestId(0)).unwrap();
    assert!(!protocol.has_capacity());
    let actions = protocol.on_inbound_substream(peer, None, 6usize, RequestId(1)).unwrap();
    assert_eq!(actions, vec![Action::CloseSubstream { substream: 6 }]);

    // the request waits for its response
    let (result, actions): (Result<(), Error>, Actions) =
        protocol.on_inbound_request(peer, RequestId(0), Ok(vec![7]));
    result.unwrap();
    assert_eq!(
        actions,
        vec![
            Action::AwaitResponse { peer, request_id: RequestId(0) },
            Action::Report(RequestResponseEvent::RequestReceived {
                peer,
                fallback: None,
                request_id: RequestId(0),
                request: vec![7],
            }),
        ]
    );
    assert!(!protocol.has_capacity());
    assert!(protocol.awaits_response(&RequestId(0)));

    // it is decided once
    let actions: Actions = protocol.on_send_response(RequestId(0), vec![8]);
    assert_eq!(
        actions,
        vec![Action::SendResponse { request_id: RequestId(0), response: vec![8] }]
    );
    let actions: Actions = protocol.on_reject_request(RequestId(0));
    assert_eq!(actions, vec![]);

    let actions: Actions = protocol.on_response_finished(RequestId(0), true);
    assert_eq!(actions, vec![Action::ResponseSent { request_id: RequestId(0) }]);
    assert!(protocol.has_capacity());
}

#[test]
fn canceled_request_is_canceled_once_it_is_sent() {
    let mut protocol = protocol();
    let peer = connect(&mut protocol);
    let _: Actions = protocol.next_event(
        ProtocolInput::Command(RequestResponseCommand::SendRequest {
            peer,
            request_id: RequestId(1),
            request: vec![1],
            dial_options: DialOptions::Reject,
        }),
        Answers { request_id: RequestId(0), opened: Some(SubstreamId(0)), dialed: false },
    );
    let _: Actions = protocol.next_event(
        ProtocolInput::Transport(TransportEvent::SubstreamOpened {
            peer,
            protocol: name("/req/1"),
            fallback: None,
            direction: Direction::Outbound(SubstreamId(0)),
            substream: 5usize,
        }),
        Answers { request_id: RequestId(0), opened: None, dialed: false },
    );
    let actions: Actions = protocol.on_cancel_request(RequestId(1));
    assert_eq!(actions, vec![Action::CancelRequest { request_id: RequestId(1) }]);
}

#[test]
fn outcomes_of_sending_and_waiting() {
    assert_eq!(send_failure(SendOutcome::Sent), None);
    assert_eq!(send_failure(SendOutcome::TimedOut), Some(RequestResponseError::Timeout));
    assert_eq!(
        send_failure(SendOutcome::PermissionDenied),
        Some(RequestResponseError::TooLargePayload)
    );
    assert_eq!(send_failure(SendOutcome::Failed), Some(RequestResponseError::NotConnected));

    assert_eq!(reply(ReplyEvent::Received(vec![1])).0, Ok(vec![1]));
    assert_eq!(reply(ReplyEvent::Canceled).0, Err(RequestResponseError::Canceled));
    assert_eq!(reply(ReplyEvent::TimedOut).0, Err(RequestResponseError::Timeout));
    assert_eq!(reply(ReplyEvent::Closed).0, Err(RequestResponseError::Rejected));
}

#[test]
fn configuration() {
    let (config, mut handle) = ConfigBuilder::new(name("/req/1")).with_max_size(1024).build();
    assert_eq!(config.protocol_name(), &name("/req/1"));
    assert_eq!(config.codec, ProtocolCodec::UnsignedVarint(Some(1024)));
    assert_eq!(config.timeout, REQUEST_TIMEOUT);
    assert_eq!(config.max_concurrent_inbound_requests, None);
    assert_eq!(handle.next_request_id(), RequestId(0));
    assert_eq!(handle.next_request_id(), RequestId(1));

    let (config, _) = ConfigBuilder::new(name("/req/1"))
        .with_timeout(7)
        .with_max_concurrent_inbound_requests(3)
        .build();
    assert_eq!(config.timeout, 7);
    assert_eq!(config.max_concurrent_inbound_requests, Some(3));

    let (config, _) = RequestResponseConfig::new(name("/req/2"), 4);
    assert_eq!(config.max_concurrent_inbound_requests, Some(4));
}

#[test]
fn handle_numbers_its_requests() {
    let (_, mut handle) = ConfigBuilder::new(name("/req/1")).build();
    let peer = PeerId::random();
    let (id, command) = handle.send_request(peer, vec![1], DialOptions::Dial);
    assert_eq!(id, RequestId(0));
    assert_eq!(
        command,
        RequestResponseCommand::SendRequest {
            peer,
            request_id: id,
            request: vec![1],
            dial_options: DialOptions::Dial,
        }
    );
    let (id, _) = handle.send_request(peer, vec![1], DialOptions::Dial);
    assert_eq!(id, RequestId(1));
    assert_eq!(
        handle.cancel_request(id),
        RequestResponseCommand::CancelRequest { request_id: id }
    );
    assert_eq!(
        handle.reject_request(id),
        RequestResponseCommand::RejectRequest { request_id: id }
    );
    assert_eq!(
        handle.send_response(id, vec![2]),
        RequestResponseCommand::SendResponse { request_id: id, response: vec![2] }
    );
}

#[test]
fn service_sends_requests_in_order() {
    let mut service: RequestResponseService<usize> = RequestResponseService::new(name("/req/1"));
    let peer = PeerId::random();
    let (first, command) = service.send_request(peer, vec![1]);
    assert_eq!(command, TransportCommand::OpenSubstream { protocol: name("/req/1"), peer });
    let (second, _) = service.send_request(peer, vec![2]);
    assert_ne!(first, second);
    assert_eq!(
        service.handle_outbound_substream(5),
        Some(ServiceAction::SendRequest { request_id: first, request: vec![1], substream: 5 })
    );
    assert_eq!(
        service.handle_outbound_substream(6),
        Some(ServiceAction::SendRequest { request_id: second, request: vec![2], substream: 6 })
    );
    assert_eq!(service.handle_outbound_substream(7), None);
    assert_eq!(
        service.on_response(first, vec![3]),
        ServiceEvent::ResponseReceived { request: first, response: vec![3] }
    );

    let event = service.on_request(peer, vec![4], 8);
    assert_eq!(
        event,
        ServiceEvent::RequestReceived { peer, request_id: RequestId(0), request: vec![4] }
    );
    assert!(service.awaits_response(&RequestId(0)));
    assert_eq!(service.send_response(RequestId(0)), 8);
    assert!(!service.awaits_response(&RequestId(0)));
}
