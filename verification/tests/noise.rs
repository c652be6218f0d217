//! Frames of encrypted messages.

use litep2p::noise::{
    frame, from_be_bytes, handshake_frame, plaintext, read_frame_len, signed_static_key,
    to_be_bytes, write_frame_len, ConnectionError, EncryptedConnection, FrameLen, ReadStep, MAX_MESSAGE_LENGTH,
    TAG_LENGTH,
};
use snow::{Builder, TransportState};

/// Two ends of a session.
fn session() -> (TransportState, TransportState) {
    let builder = || Builder::new("Noise_XX_25519_ChaChaPoly_SHA256".parse().unwrap());
    let key = || builder().generate_keypair().unwrap().private;
    let mut initiator = builder().local_private_key(&key()).build_initiator().unwrap();
    let mut responder = builder().local_private_key(&key()).build_responder().unwrap();
    let mut message = vec![0u8; 1024];
    let mut payload = vec![0u8; 1024];
    let n = initiator.write_message(&[], &mut message).unwrap();
    responder.read_message(&message[..n], &mut payload).unwrap();
    let n = responder.write_message(&[], &mut message).unwrap();
    initiator.read_message(&message[..n], &mut payload).unwrap();
    let n = initiator.write_message(&[], &mut message).unwrap();
    responder.read_message(&message[..n], &mut payload).unwrap();
    (initiator.into_transport_mode().unwrap(), responder.into_transport_mode().unwrap())
}

type Step = ReadStep<&'static str>;

#[test]
fn length_is_two_bytes_high_byte_first() {
    assert_eq!(to_be_bytes(0x1234), [0x12, 0x34]);
    assert_eq!(from_be_bytes(0x12, 0x34), 0x1234);
    assert_eq!(from_be_bytes(0xff, 0xff), 65535);
}

#[test]
fn length_comes_in_pieces() {
    let mut buf = [0u8; 2];
    let mut off: usize = 0;
    assert_eq!(read_frame_len(&mut buf, &mut off, &vec![]), FrameLen::Eof);
    assert_eq!(read_frame_len(&mut buf, &mut off, &vec![1]), FrameLen::More);
    assert_eq!(read_frame_len(&mut buf, &mut off, &vec![2]), FrameLen::Complete(0x0102));

    let mut off: usize = 0;
    assert_eq!(write_frame_len(&[1, 2], &mut off, 0), FrameLen::Eof);
    assert_eq!(write_frame_len(&[1, 2], &mut off, 1), FrameLen::More);
    assert_eq!(write_frame_len(&[1, 2], &mut off, 1), FrameLen::Complete(0x0102));
}

#[test]
fn message_is_read_as_it_was_written() {
    let (ours, theirs) = session();
    let mut writer = EncryptedConnection::new(ours);
    let mut reader = EncryptedConnection::new(theirs);
    let plaintext = b"hello, world".to_vec();

    let (len, message) = writer.write::<&str>(&plaintext).unwrap();
    assert_eq!(message.len(), plaintext.len() + TAG_LENGTH);
    assert_eq!(from_be_bytes(len[0], len[1]) as usize, message.len());
    assert_ne!(message[..plaintext.len()], plaintext[..]);

    let step: Step = reader.start_read(64);
    assert_eq!(step, ReadStep::Socket(2));
    let step: Step = reader.on_socket_read(Ok(vec![len[0]]), 64);
    assert_eq!(step, ReadStep::Socket(1));
    let step: Step = reader.on_socket_read(Ok(vec![len[1]]), 64);
    assert_eq!(step, ReadStep::Socket(message.len()));
    let step: Step = reader.on_socket_read(Ok(message[..5].to_vec()), 64);
    assert_eq!(step, ReadStep::Socket(message.len() - 5));
    let step: Step = reader.on_socket_read(Ok(message[5..].to_vec()), 64);
    assert_eq!(step, ReadStep::Finished(Ok(plaintext)));
}

#[test]
fn plaintext_is_handed_out_in_order() {
    let (ours, theirs) = session();
    let mut writer = EncryptedConnection::new(ours);
    let mut reader = EncryptedConnection::new(theirs);
    let (len, message) = writer.write::<&str>(&vec![1, 2, 3, 4, 5]).unwrap();

    let _: Step = reader.start_read(2);
    let _: Step = reader.on_socket_read(Ok(len.to_vec()), 2);
    let step: Step = reader.on_socket_read(Ok(message), 2);
    assert_eq!(step, ReadStep::Finished(Ok(vec![1, 2])));
    let step: Step = reader.start_read(2);
    assert_eq!(step, ReadStep::Finished(Ok(vec![3, 4])));
    let step: Step = reader.start_read(2);
    assert_eq!(step, ReadStep::Finished(Ok(vec![5])));
    let step: Step = reader.start_read(2);
    assert_eq!(step, ReadStep::Socket(2));
}

#[test]
fn empty_frame_is_skipped() {
    let (ours, _) = session();
    let mut reader = EncryptedConnection::new(ours);
    let _: Step = reader.start_read(2);
    let step: Step = reader.on_socket_read(Ok(vec![0, 0]), 2);
    assert_eq!(step, ReadStep::Socket(2));
}

#[test]
fn stream_ends_between_frames() {
    let (ours, _) = session();
    let mut reader = EncryptedConnection::new(ours);
    let _: Step = reader.start_read(2);
    let step: Step = reader.on_socket_read(Ok(vec![]), 2);
    assert_eq!(step, ReadStep::Finished(Ok(vec![])));
    let step: Step = reader.start_read(2);
    assert_eq!(step, ReadStep::Finished(Ok(vec![])));
}

#[test]
fn stream_ends_inside_of_a_frame() {
    let (ours, _) = session();
    let mut reader = EncryptedConnection::new(ours);
    let _: Step = reader.start_read(2);
    let _: Step = reader.on_socket_read(Ok(vec![0, 20]), 2);
    let step: Step = reader.on_socket_read(Ok(vec![]), 2);
    assert_eq!(step, ReadStep::Finished(Err(ConnectionError::UnexpectedEof)));
    let step: Step = reader.start_read(2);
    assert_eq!(step, ReadStep::Finished(Err(ConnectionError::UnexpectedEof)));
}

#[test]
fn message_that_was_tampered_with_is_refused() {
    let (ours, theirs) = session();
    let mut writer = EncryptedConnection::new(ours);
    let mut reader = EncryptedConnection::new(theirs);
    let (len, mut message) = writer.write::<&str>(&vec![1, 2, 3]).unwrap();
    message[0] ^= 1;

    let _: Step = reader.start_read(2);
    let _: Step = reader.on_socket_read(Ok(len.to_vec()), 2);
    let step: Step = reader.on_socket_read(Ok(message), 2);
    assert_eq!(step, ReadStep::Finished(Err(ConnectionError::InvalidData)));
    let step: Step = reader.start_read(2);
    assert_eq!(step, ReadStep::Finished(Err(ConnectionError::InvalidData)));
}

#[test]
fn socket_error_is_handed_on() {
    let (ours, _) = session();
    let mut reader = EncryptedConnection::new(ours);
    let _: Step = reader.start_read(2);
    let step: Step = reader.on_socket_read(Err("broken"), 2);
    assert_eq!(step, ReadStep::Finished(Err(ConnectionError::Socket("broken"))));
    let step: Step = reader.start_read(2);
    assert_eq!(step, ReadStep::Socket(2));
}

#[test]
fn message_that_is_too_long_is_not_written() {
    let (ours, _) = session();
    let mut writer = EncryptedConnection::new(ours);
    let longest = vec![7u8; MAX_MESSAGE_LENGTH - TAG_LENGTH];
    let (len, message) = writer.write::<&str>(&longest).unwrap();
    assert_eq!(len, [0xff, 0xff]);
    assert_eq!(message.len(), MAX_MESSAGE_LENGTH);
    let too_long = vec![7u8; MAX_MESSAGE_LENGTH - TAG_LENGTH + 1];
    assert_eq!(writer.write::<&str>(&too_long), Err(ConnectionError::InvalidData));
}

#[test]
fn message_is_framed_with_its_length() {
    assert_eq!(frame::<&str>(Some(vec![7; 300])), Ok(([1, 44], vec![7; 300])));
    assert_eq!(frame::<&str>(None), Err(ConnectionError::InvalidData));
    assert_eq!(handshake_frame(&vec![5, 6]), vec![0, 2, 5, 6]);
}

#[test]
fn static_key_is_signed_behind_its_prefix() {
    let mut expected = b"noise-libp2p-static-key:".to_vec();
    expected.extend([1, 2, 3]);
    assert_eq!(signed_static_key(&vec![1, 2, 3]), expected);
}

#[test]
fn plaintext_is_the_front_of_the_payload() {
    assert_eq!(plaintext(Some(3), vec![1, 2, 3, 0, 0]), Some(vec![1, 2, 3]));
    assert_eq!(plaintext(Some(0), vec![1, 2]), Some(vec![]));
    assert_eq!(plaintext(None, vec![1, 2, 3]), None);
}

#[test]
fn message_without_a_tag_is_not_decrypted() {
    let (_, responder) = session();
    let mut connection = EncryptedConnection::new(responder);
    let _ = connection.start_read::<()>(10);
    let _ = connection.on_socket_read::<()>(Ok(vec![0, 3]), 10);
    match connection.on_socket_read::<()>(Ok(vec![1, 2, 3]), 10) {
        ReadStep::Finished(Err(ConnectionError::InvalidData)) => {}
        _ => panic!("message decrypted"),
    }
}

#[test]
fn session_counts_each_message_once() {
    let (initiator, mut responder) = session();
    let mut writer = EncryptedConnection::new(initiator);
    let mut payload = vec![0u8; 100];
    for i in 0..3u64 {
        // the other end is in step with what has been written
        assert_eq!(responder.receiving_nonce(), i);
        let (_, message) = writer.write::<()>(&vec![i as u8; 5]).unwrap();
        let n = responder.read_message(&message, &mut payload).unwrap();
        assert_eq!(payload[..n], [i as u8; 5]);
    }
}
