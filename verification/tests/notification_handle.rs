//! What the user of the notification protocol sees.

use litep2p::error::Error;
use litep2p::peer_id::PeerId;
use litep2p::protocol::notification::config::{Config, ConfigBuilder};
use litep2p::protocol::notification::connection::{
    Connection, ConnectionAction, ConnectionInput, NotifyProtocol,
};
use litep2p::protocol::notification::handle::{
    handshake_result, sync_notification_result, InnerNotificationEvent, NotificationHandle, TrySend,
};
use litep2p::protocol::notification::service::{
    NotificationService, ServiceAction, ServiceEvent, TransportCommand,
};
use litep2p::protocol::notification::types::{
    NotificationCommand, NotificationError, NotificationEvent, ValidationResult,
};
use litep2p::protocol::ProtocolCodec;
use litep2p::types::ProtocolName;

fn name(text: &str) -> ProtocolName {
    ProtocolName::from_name(String::from(text))
}

fn with_stream(peer: PeerId) -> NotificationHandle<&'static str> {
    let mut handle = NotificationHandle::new();
    let event = handle.on_event(InnerNotificationEvent::NotificationStreamOpened {
        protocol: name("/notif/1"),
        fallback: None,
        peer,
        handshake: vec![1],
        sink: "sink",
    });
    assert_eq!(
        event,
        NotificationEvent::NotificationStreamOpened {
            protocol: name("/notif/1"),
            fallback: None,
            peer,
            handshake: vec![1],
        }
    );
    handle
}

#[test]
fn sinks_of_open_streams_are_kept() {
    let peer = PeerId::random();
    let mut handle = with_stream(peer);
    assert_eq!(handle.notification_sink(&peer), Some(&"sink"));
    assert_eq!(handle.notification_sink(&PeerId::random()), None);
    handle.on_event(InnerNotificationEvent::NotificationStreamClosed { peer });
    assert_eq!(handle.notification_sink(&peer), None);
}

#[test]
fn substreams_are_opened_to_other_peers_alone() {
    let (open, other) = (PeerId::random(), PeerId::random());
    let handle = with_stream(open);
    assert_eq!(handle.open_substream(open), Err(Error::PeerAlreadyExists(open)));
    assert_eq!(
        handle.open_substream(other),
        Ok(NotificationCommand::OpenSubstream { peer: other })
    );

    let (to_open, result) = handle.open_substream_batch(vec![open, other, other]);
    assert!(to_open.contains(&other) && !to_open.contains(&open));
    assert_eq!(to_open.len(), 1);
    let ignored = result.unwrap_err();
    assert!(ignored.contains(&open) && ignored.len() == 1);
    let (_, result) = handle.open_substream_batch(vec![other]);
    assert!(result.is_ok());

    assert_eq!(
        handle.close_substream(open),
        Some(NotificationCommand::CloseSubstream { peer: open })
    );
    assert_eq!(handle.close_substream(other), None);
    let to_close = handle.close_substream_batch(vec![open, other]);
    assert!(to_close.contains(&open) && to_close.len() == 1);
}

#[test]
fn commands_of_the_user() {
    let peer = PeerId::random();
    let handle: NotificationHandle<()> = NotificationHandle::new();
    assert_eq!(
        handle.set_handshake(vec![1]),
        NotificationCommand::SetHandshake { handshake: vec![1] }
    );
    assert_eq!(
        handle.send_validation_result(peer, ValidationResult::Accept),
        NotificationCommand::SubstreamValidated { peer, result: ValidationResult::Accept }
    );
}

#[test]
fn outcomes_of_sending_notifications() {
    assert_eq!(sync_notification_result(TrySend::Sent), Ok(()));
    assert_eq!(sync_notification_result(TrySend::Full), Err(NotificationError::ChannelClogged));
    assert_eq!(sync_notification_result(TrySend::Closed), Err(NotificationError::NoConnection));
    assert_eq!(handshake_result(TrySend::Sent), Ok(()));
    assert_eq!(handshake_result(TrySend::Full), Err(NotificationError::ChannelClogged));
    assert_eq!(
        handshake_result(TrySend::Closed),
        Err(NotificationError::EssentialTaskClosed)
    );

    let (open, other) = (PeerId::random(), PeerId::random());
    let handle = with_stream(open);
    assert_eq!(
        handle.send_sync_notification(open, TrySend::Full),
        Err(NotificationError::ChannelClogged)
    );
    assert_eq!(handle.send_sync_notification(other, TrySend::Full), Ok(()));
    assert_eq!(handle.send_async_notification(open, true), Ok(()));
    assert_eq!(handle.send_async_notification(open, false), Err(Error::PeerDoesntExist(open)));
    assert_eq!(handle.send_async_notification(other, true), Err(Error::PeerDoesntExist(other)));
}

#[test]
fn connection_forwards_notifications() {
    let peer = PeerId::random();
    let connection = Connection::new(peer);
    assert_eq!(
        connection.next_event(ConnectionInput::Inbound { notification: vec![1] }),
        vec![ConnectionAction::ReportNotification { peer, notification: vec![1] }]
    );
    assert_eq!(
        connection.next_event(ConnectionInput::Notification { notification: vec![2] }),
        vec![ConnectionAction::Send { notification: vec![2] }]
    );
    assert_eq!(connection.next_event(ConnectionInput::OutboundData), vec![]);
}

#[test]
fn end_of_a_connection_is_reported() {
    let peer = PeerId::random();
    let connection = Connection::new(peer);
    let silent = connection.close_connection(NotifyProtocol::No);
    assert_eq!(silent.last(), Some(&ConnectionAction::ReportClosed { peer }));
    assert!(!silent.contains(&ConnectionAction::NotifyProtocol { peer }));
    assert_eq!(connection.next_event(ConnectionInput::Shutdown), silent);

    let loud = connection.close_connection(NotifyProtocol::Yes);
    assert!(loud.contains(&ConnectionAction::NotifyProtocol { peer }));
    assert_eq!(loud.last(), Some(&ConnectionAction::ReportClosed { peer }));
    for input in [
        ConnectionInput::InboundClosed,
        ConnectionInput::OutboundClosed,
        ConnectionInput::SinkClosed,
        ConnectionInput::SendFailed,
    ] {
        assert_eq!(connection.next_event(input), loud);
    }
}

#[test]
fn notification_configuration() {
    let config = ConfigBuilder::new(name("/notif/1"))
        .with_max_size(1024)
        .with_handshake(vec![1, 2])
        .with_fallback_names(vec![name("/notif/0")])
        .with_auto_accept_inbound(true)
        .build();
    assert_eq!(config.protocol_name(), &name("/notif/1"));
    assert_eq!(config.codec, ProtocolCodec::UnsignedVarint(Some(1024)));
    assert_eq!(config.handshake, vec![1, 2]);
    assert_eq!(config.fallback_names, vec![name("/notif/0")]);
    assert!(config.auto_accept);
    assert_eq!(
        config,
        Config::new(name("/notif/1"), 1024, vec![1, 2], vec![name("/notif/0")], true)
    );
}

#[test]
fn service_validates_inbound_substreams() {
    let mut service: NotificationService<usize> =
        NotificationService::new(name("/notif/1"), vec![1]);
    let peer = PeerId::random();
    assert_eq!(
        service.open_substream(peer),
        Ok(TransportCommand::OpenSubstream { protocol: name("/notif/1"), peer })
    );

    assert_eq!(
        service.on_inbound_substream(peer, 5),
        ServiceAction::ReadHandshake { peer, substream: 5 }
    );
    assert_eq!(
        service.validate_inbound_substream(peer, vec![9], 5),
        Some(ServiceEvent::SubstreamReceived { peer, handshake: vec![9] })
    );
    assert_eq!(
        service.report_validation_result(peer, ValidationResult::Accept),
        Some(TransportCommand::OpenSubstream { protocol: name("/notif/1"), peer })
    );
    service.set_handshake(vec![2]);
    assert_eq!(
        service.on_outbound_substream(peer, 6),
        Some(ServiceAction::ExchangeHandshakes { peer, substream: 6, handshake: vec![2] })
    );
}
