//! Connections that are encrypted with Noise.
//!
//! Each Noise message travels in a frame: its length in two bytes, the most significant one first,
//! and then the message.

use crate::types::copy_bytes;
use vstd::prelude::*;

verus! {

/// The length of the authentication tag of a Noise message.
pub const TAG_LENGTH: usize = 16;

/// The maximum length of a Noise message.
pub const MAX_MESSAGE_LENGTH: usize = 65535;

/// Maximum length of a message of the handshake that the local node sends.
pub const MAX_HANDSHAKE_LENGTH: usize = 255;

/// What the write buffer holds beyond the plaintext.
pub const WRITE_BUFFER_HEADROOM: usize = 1024;

/// The state of a Noise session after its handshake, `snow::TransportState`.
#[verifier::external_type_specification]
#[verifier::external_body]
pub struct ExTransportState(snow::TransportState);

/// The plaintext that a session in this state makes of a message,
/// `snow::TransportState::read_message`, or nothing where it cannot decrypt the message.
pub uninterp spec fn opened(session: snow::TransportState, message: Seq<u8>) -> Option<Seq<u8>>;

/// The message that a session in this state makes of a plaintext,
/// `snow::TransportState::write_message`, or nothing where it cannot encrypt the plaintext.
pub uninterp spec fn sealed(session: snow::TransportState, payload: Seq<u8>) -> Option<Seq<u8>>;

/// The counter of the message that a session in this state sends next,
/// `snow::TransportState::sending_nonce`.
pub uninterp spec fn sending_nonce(session: snow::TransportState) -> u64;

/// The counter of the message that a session in this state receives next,
/// `snow::TransportState::receiving_nonce`.
pub uninterp spec fn receiving_nonce(session: snow::TransportState) -> u64;

/// Whether the session has gone on by one message that was received.
pub open spec fn received_one(before: snow::TransportState, after: snow::TransportState) -> bool {
    &&& receiving_nonce(after) == receiving_nonce(before) + 1
    &&& sending_nonce(after) == sending_nonce(before)
}

/// Whether the session has gone on by one message that was sent.
pub open spec fn sent_one(before: snow::TransportState, after: snow::TransportState) -> bool {
    &&& sending_nonce(after) == sending_nonce(before) + 1
    &&& receiving_nonce(after) == receiving_nonce(before)
}

/// `snow::TransportState::read_message`: decrypts `message` into the front of `payload`.
///
/// What comes of it is settled by the state of the session, which holds the key and the counter, and
/// by the message. It succeeds only on a message that is not too long and holds a tag, and then
/// returns the length of the plaintext, which is that of the message without the tag, and counts one
/// more message as received. Where it fails the session stays as it was, and unless `payload` was too
/// short the message cannot be decrypted.
#[verifier::external_body]
fn read_message(
    noise: &mut snow::TransportState,
    message: &Vec<u8>,
    payload: &mut Vec<u8>,
) -> (r: Option<usize>)
    ensures
        final(payload)@.len() == old(payload)@.len(),
        match r {
            Some(n) => {
                &&& n + TAG_LENGTH == message@.len()
                &&& message@.len() <= MAX_MESSAGE_LENGTH
                &&& n <= old(payload)@.len()
                &&& opened(*old(noise), message@) == Some(final(payload)@.take(n as int))
                &&& receiving_nonce(*final(noise)) == receiving_nonce(*old(noise)) + 1
                &&& sending_nonce(*final(noise)) == sending_nonce(*old(noise))
            },
            None => {
                &&& *final(noise) == *old(noise)
                &&& old(payload)@.len() >= message@.len() ==> opened(*old(noise), message@) is None
            },
        },
{
    noise.read_message(message, payload).ok()
}

/// `snow::TransportState::write_message`: encrypts `payload` into the front of `message`.
///
/// What comes of it is settled by the state of the session, which holds the key and the counter, and
/// by the plaintext. It succeeds only if the plaintext and a tag fit into a Noise message and into
/// `message`, and then returns the length of the two and counts one more message as sent. Where it
/// fails the session stays as it was, and unless `message` was too short the plaintext cannot be
/// encrypted.
#[verifier::external_body]
fn write_message(
    noise: &mut snow::TransportState,
    payload: &Vec<u8>,
    message: &mut Vec<u8>,
) -> (r: Option<usize>)
    ensures
        final(message)@.len() == old(message)@.len(),
        match r {
            Some(n) => {
                &&& n == payload@.len() + TAG_LENGTH
                &&& n <= MAX_MESSAGE_LENGTH
                &&& n <= old(message)@.len()
                &&& sealed(*old(noise), payload@) == Some(final(message)@.take(n as int))
                &&& sending_nonce(*final(noise)) == sending_nonce(*old(noise)) + 1
                &&& receiving_nonce(*final(noise)) == receiving_nonce(*old(noise))
            },
            None => {
                &&& *final(noise) == *old(noise)
                &&& old(message)@.len() >= payload@.len() + TAG_LENGTH ==> sealed(
                    *old(noise),
                    payload@,
                ) is None
            },
        },
{
    noise.write_message(payload, message).ok()
}

/// The number that two bytes stand for, the most significant one first.
pub open spec fn be_u16(bytes: Seq<u8>) -> nat {
    (bytes[0] * 256 + bytes[1]) as nat
}

/// Two bytes as a number, the most significant one first.
pub fn from_be_bytes(high: u8, low: u8) -> (r: u16)
    ensures
        r == be_u16(seq![high, low]),
{
    high as u16 * 256 + low as u16
}

/// A number as two bytes, the most significant one first.
pub fn to_be_bytes(n: u16) -> (r: [u8; 2])
    ensures
        be_u16(r@) == n,
{
    [(n / 256) as u8, (n % 256) as u8]
}

/// What has been read of the length of a frame.
#[derive(Clone, Copy, Debug, PartialEq, Eq, Structural)]
pub enum FrameLen {
    /// The end of the stream was reached.
    Eof,
    /// There is one more byte to read or to write.
    More,
    /// All of it.
    Complete(u16),
}

/// Takes bytes that were read from the source into `buf`, which is filled up to `off`.
///
/// The source has been asked for the bytes that are missing. That it has none means the end of the
/// stream.
pub fn read_frame_len(buf: &mut [u8; 2], off: &mut usize, bytes: &Vec<u8>) -> (r: FrameLen)
    requires
        *old(off) < 2,
        bytes@.len() <= 2 - *old(off),
    ensures
        *final(off) == *old(off) + bytes@.len(),
        final(buf)@.take(*final(off) as int) == old(buf)@.take(*old(off) as int) + bytes@,
        r == (if bytes@.len() == 0 {
            FrameLen::Eof
        } else if *final(off) < 2 {
            FrameLen::More
        } else {
            FrameLen::Complete(be_u16(final(buf)@) as u16)
        }),
{
    let ghost before = *buf;
    let ghost start = *off;
    if bytes.len() == 0 {
        assert(before@.take(start as int) + bytes@ =~= before@.take(start as int));
        return FrameLen::Eof;
    }
    buf[*off] = bytes[0];
    *off += 1;
    assert(buf@.take(start + 1) =~= before@.take(start as int).push(bytes@[0]));
    if bytes.len() == 2 {
        buf[*off] = bytes[1];
        *off += 1;
    }
    assert(buf@.take(*off as int) =~= before@.take(start as int) + bytes@);
    if *off == 2 {
        assert(buf@ =~= seq![buf@[0], buf@[1]]);
        FrameLen::Complete(from_be_bytes(buf[0], buf[1]))
    } else {
        FrameLen::More
    }
}

/// Accounts for `n` more bytes of the length of a frame that the sink has taken.
///
/// The sink has been offered the bytes from `off` on. That it takes none means the end of the
/// stream.
pub fn write_frame_len(buf: &[u8; 2], off: &mut usize, n: usize) -> (r: FrameLen)
    requires
        *old(off) < 2,
        n <= 2 - *old(off),
    ensures
        *final(off) == *old(off) + n,
        r == (if n == 0 {
            FrameLen::Eof
        } else if *final(off) < 2 {
            FrameLen::More
        } else {
            FrameLen::Complete(be_u16(buf@) as u16)
        }),
{
    if n == 0 {
        return FrameLen::Eof;
    }
    *off += n;
    if *off == 2 {
        assert(buf@ =~= seq![buf@[0], buf@[1]]);
        FrameLen::Complete(from_be_bytes(buf[0], buf[1]))
    } else {
        FrameLen::More
    }
}

/// Read state of the stream.
pub enum ReadState {
    /// Between two frames.
    Ready,
    /// The length of a frame is being read.
    ReadLen {
        /// What has been read of it.
        buf: [u8; 2],
        /// How much has been read.
        off: usize,
    },
    /// A message is being read.
    ReadData {
        /// Length of the message.
        len: usize,
        /// What has been read of it.
        data: Vec<u8>,
    },
    /// A message has been decrypted and not been handed out completely.
    ReadBuffered {
        /// What is left of it.
        unread: Vec<u8>,
    },
    /// EOF has been reached (terminal state).
    ///
    /// The associated value signals if the EOF was unexpected or not.
    Eof {
        /// Whether the stream ended inside of a frame.
        unexpected: bool,
    },
    /// A decryption error occurred (terminal state).
    DecErr,
}

/// Read state of the stream, with bytes by their views.
pub enum ReadView {
    /// Between two frames.
    Ready,
    /// The length of a frame is being read.
    ReadLen {
        /// What has been read of it.
        read: Seq<u8>,
    },
    /// A message is being read.
    ReadData {
        /// Length of the message.
        len: nat,
        /// What has been read of it.
        data: Seq<u8>,
    },
    /// A message has been decrypted and not been handed out completely.
    ReadBuffered {
        /// What is left of it.
        unread: Seq<u8>,
    },
    /// EOF has been reached.
    Eof {
        /// Whether the stream ended inside of a frame.
        unexpected: bool,
    },
    /// A decryption error occurred.
    DecErr,
}

impl View for ReadState {
    type V = ReadView;

    open spec fn view(&self) -> ReadView {
        match *self {
            ReadState::Ready => ReadView::Ready,
            ReadState::ReadLen { buf, off } => ReadView::ReadLen {
                read: buf@.take(
                    if off <= 2 {
                        off as int
                    } else {
                        2
                    },
                ),
            },
            ReadState::ReadData { len, data } => ReadView::ReadData { len: len as nat, data: data@ },
            ReadState::ReadBuffered { unread } => ReadView::ReadBuffered { unread: unread@ },
            ReadState::Eof { unexpected } => ReadView::Eof { unexpected },
            ReadState::DecErr => ReadView::DecErr,
        }
    }
}

/// Why nothing can be read or written.
#[derive(Debug, PartialEq, Eq)]
pub enum ConnectionError<E> {
    /// The stream ended inside of a frame.
    UnexpectedEof,
    /// The message could not be decrypted or encrypted.
    InvalidData,
    /// The socket failed.
    Socket(E),
}

/// How a read goes on.
#[derive(Debug, PartialEq, Eq)]
pub enum ReadStep<E> {
    /// At most this many bytes are to be read from the socket.
    Socket(usize),
    /// The read is over: these bytes were read, and none at the end of the stream.
    Finished(Result<Vec<u8>, ConnectionError<E>>),
}

/// How a read goes on, with bytes by their views.
pub enum StepView<E> {
    /// At most this many bytes are to be read from the socket.
    Socket(nat),
    /// The read is over.
    Finished(Result<Seq<u8>, ConnectionError<E>>),
}

impl<E> View for ReadStep<E> {
    type V = StepView<E>;

    open spec fn view(&self) -> StepView<E> {
        match *self {
            ReadStep::Socket(n) => StepView::Socket(n as nat),
            ReadStep::Finished(Ok(bytes)) => StepView::Finished(Ok(bytes@)),
            ReadStep::Finished(Err(error)) => StepView::Finished(Err(error)),
        }
    }
}

impl ReadView {
    /// Whether no more has been read than there is.
    pub open spec fn wf(self) -> bool {
        match self {
            ReadView::ReadLen { read } => read.len() < 2,
            ReadView::ReadData { len, data } => data.len() < len <= MAX_MESSAGE_LENGTH,
            _ => true,
        }
    }

    /// How many bytes are missing for the next step.
    pub open spec fn missing(self) -> nat {
        match self {
            ReadView::Ready => 2,
            ReadView::ReadLen { read } => (2 - read.len()) as nat,
            ReadView::ReadData { len, data } => (len - data.len()) as nat,
            _ => 0,
        }
    }

    /// A read of at most `capacity` bytes begins.
    pub open spec fn start<E>(self, capacity: nat) -> (Self, StepView<E>) {
        match self {
            ReadView::Ready => (ReadView::ReadLen { read: Seq::empty() }, StepView::Socket(2)),
            ReadView::ReadLen { .. } => (self, StepView::Socket(self.missing())),
            ReadView::ReadData { .. } => (self, StepView::Socket(self.missing())),
            ReadView::ReadBuffered { unread } => ReadView::hand_out(unread, capacity),
            ReadView::Eof { unexpected } => (
                self,
                StepView::Finished(
                    if unexpected {
                        Err(ConnectionError::UnexpectedEof)
                    } else {
                        Ok(Seq::empty())
                    },
                ),
            ),
            ReadView::DecErr => (self, StepView::Finished(Err(ConnectionError::InvalidData))),
        }
    }

    /// At most `capacity` bytes of a plaintext are handed out, and the rest is kept.
    pub open spec fn hand_out<E>(plaintext: Seq<u8>, capacity: nat) -> (Self, StepView<E>) {
        if plaintext.len() <= capacity {
            (ReadView::Ready, StepView::Finished(Ok(plaintext)))
        } else {
            (
                ReadView::ReadBuffered { unread: plaintext.skip(capacity as int) },
                StepView::Finished(Ok(plaintext.take(capacity as int))),
            )
        }
    }

    /// Bytes that were missing have come in, but not the last one of a message.
    pub open spec fn advance<E>(self, bytes: Seq<u8>) -> (Self, StepView<E>) {
        match self {
            ReadView::ReadLen { read } => {
                let read = read + bytes;
                if bytes.len() == 0 {
                    (
                        ReadView::Eof { unexpected: false },
                        StepView::Finished(Ok(Seq::empty())),
                    )
                } else if read.len() < 2 {
                    (ReadView::ReadLen { read }, StepView::Socket(1))
                } else if be_u16(read) == 0 {
                    (ReadView::ReadLen { read: Seq::empty() }, StepView::Socket(2))
                } else {
                    (
                        ReadView::ReadData { len: be_u16(read), data: Seq::empty() },
                        StepView::Socket(be_u16(read)),
                    )
                }
            },
            ReadView::ReadData { len, data } => if bytes.len() == 0 {
                (
                    ReadView::Eof { unexpected: true },
                    StepView::Finished(Err(ConnectionError::UnexpectedEof)),
                )
            } else {
                let next = ReadView::ReadData { len, data: data + bytes };
                (next, StepView::Socket(next.missing()))
            },
            _ => (self, StepView::Socket(0)),
        }
    }

    /// A message has been decrypted, or could not be.
    pub open spec fn decrypted<E>(plaintext: Option<Seq<u8>>, capacity: nat) -> (
        Self,
        StepView<E>,
    ) {
        match plaintext {
            Some(plaintext) => ReadView::hand_out(plaintext, capacity),
            None => (
                ReadView::DecErr,
                StepView::Finished(Err(ConnectionError::InvalidData)),
            ),
        }
    }

    /// Whether these bytes are the last ones of a message.
    pub open spec fn completes(self, bytes: Seq<u8>) -> bool {
        self matches ReadView::ReadData { len, data } && bytes.len() > 0 && data.len() + bytes.len()
            == len
    }
}

/// A plaintext, if there is one.
pub open spec fn plaintext_view(plaintext: Option<Vec<u8>>) -> Option<Seq<u8>> {
    match plaintext {
        Some(plaintext) => Some(plaintext@),
        None => None,
    }
}

/// Encrypted connection.
pub struct EncryptedConnection {
    /// Noise transport state.
    noise: snow::TransportState,
    /// Read state of the stream.
    read_state: ReadState,
}

impl View for EncryptedConnection {
    type V = ReadView;

    /// The read state of the stream.
    closed spec fn view(&self) -> ReadView {
        self.read_state@
    }
}

/// The first `n` bytes, and the others.
fn split_front(bytes: Vec<u8>, n: usize) -> (r: (Vec<u8>, Vec<u8>))
    requires
        n <= bytes@.len(),
    ensures
        r.0@ == bytes@.take(n as int),
        r.1@ == bytes@.skip(n as int),
{
    let mut front = bytes;
    let rest = front.split_off(n);
    assert(front@ =~= bytes@.take(n as int));
    assert(rest@ =~= bytes@.skip(n as int));
    (front, rest)
}

impl EncryptedConnection {
    /// The state of the Noise session.
    pub closed spec fn session(self) -> snow::TransportState {
        self.noise
    }

    /// Create new [`EncryptedConnection`] on top of a Noise session whose handshake is done.
    pub fn new(noise: snow::TransportState) -> (r: Self)
        ensures
            r@ == ReadView::Ready,
            r.session() == noise,
    {
        EncryptedConnection { noise, read_state: ReadState::Ready }
    }

    /// Hands out at most `capacity` bytes of a plaintext and keeps the rest.
    fn hand_out<E>(&mut self, plaintext: Vec<u8>, capacity: usize) -> (r: ReadStep<E>)
        ensures
            (final(self)@, r@) == ReadView::hand_out::<E>(plaintext@, capacity as nat),
            final(self).session() == old(self).session(),
    {
        if plaintext.len() <= capacity {
            self.read_state = ReadState::Ready;
            ReadStep::Finished(Ok(plaintext))
        } else {
            let (front, unread) = split_front(plaintext, capacity);
            self.read_state = ReadState::ReadBuffered { unread };
            ReadStep::Finished(Ok(front))
        }
    }

    /// A message has been decrypted, or could not be: hands out at most `capacity` bytes of it.
    pub fn on_decrypted<E>(&mut self, plaintext: Option<Vec<u8>>, capacity: usize) -> (r: ReadStep<
        E,
    >)
        ensures
            (final(self)@, r@) == ReadView::decrypted::<E>(
                plaintext_view(plaintext),
                capacity as nat,
            ),
            final(self).session() == old(self).session(),
    {
        match plaintext {
            Some(plaintext) => self.hand_out(plaintext, capacity),
            None => {
                self.read_state = ReadState::DecErr;
                ReadStep::Finished(Err(ConnectionError::InvalidData))
            },
        }
    }

    /// Begin, or go on with, a read of at most `capacity` bytes.
    pub fn start_read<E>(&mut self, capacity: usize) -> (r: ReadStep<E>)
        requires
            old(self)@.wf(),
        ensures
            (final(self)@, r@) == old(self)@.start::<E>(capacity as nat),
            final(self)@.wf(),
            final(self).session() == old(self).session(),
    {
        let mut state = ReadState::DecErr;
        std::mem::swap(&mut state, &mut self.read_state);
        match state {
            ReadState::Ready => {
                let buf: [u8; 2] = [0, 0];
                assert(buf@.take(0) =~= Seq::empty());
                self.read_state = ReadState::ReadLen { buf, off: 0 };
                ReadStep::Socket(2)
            },
            ReadState::ReadLen { buf, off } => {
                self.read_state = ReadState::ReadLen { buf, off };
                ReadStep::Socket(2 - off)
            },
            ReadState::ReadData { len, data } => {
                let n: usize = len - data.len();
                self.read_state = ReadState::ReadData { len, data };
                ReadStep::Socket(n)
            },
            ReadState::ReadBuffered { unread } => self.hand_out(unread, capacity),
            ReadState::Eof { unexpected } => {
                self.read_state = ReadState::Eof { unexpected };
                if unexpected {
                    ReadStep::Finished(Err(ConnectionError::UnexpectedEof))
                } else {
                    let bytes: Vec<u8> = Vec::new();
                    assert(bytes@ =~= Seq::empty());
                    ReadStep::Finished(Ok(bytes))
                }
            },
            ReadState::DecErr => ReadStep::Finished(Err(ConnectionError::InvalidData)),
        }
    }

    /// The socket has answered to [`ReadStep::Socket`]: with bytes, of which there are none at the
    /// end of the stream, or with an error.
    ///
    /// Once a message is complete it is decrypted, and at most `capacity` bytes of it are handed
    /// out.
    pub fn on_socket_read<E>(&mut self, answer: Result<Vec<u8>, E>, capacity: usize) -> (r: ReadStep<
        E,
    >)
        requires
            old(self)@.wf(),
            old(self)@ is ReadLen || old(self)@ is ReadData,
            answer matches Ok(bytes) ==> bytes@.len() <= old(self)@.missing(),
        ensures
            final(self)@.wf(),
            match answer {
                Err(error) => {
                    &&& final(self)@ == old(self)@
                    &&& final(self).session() == old(self).session()
                    &&& r@ == StepView::Finished(Err(ConnectionError::Socket(error)))
                },
                Ok(bytes) => if old(self)@.completes(bytes@) {
                    let plaintext = opened(old(self).session(), old(self)@->data + bytes@);
                    &&& (final(self)@, r@) == ReadView::decrypted::<E>(plaintext, capacity as nat)
                    &&& plaintext matches Some(plaintext) ==> plaintext.len() + TAG_LENGTH == old(
                        self,
                    )@->len
                    &&& if plaintext is Some {
                        received_one(old(self).session(), final(self).session())
                    } else {
                        final(self).session() == old(self).session()
                    }
                } else {
                    &&& (final(self)@, r@) == old(self)@.advance::<E>(bytes@)
                    &&& final(self).session() == old(self).session()
                },
            },
    {
        let bytes = match answer {
            Err(error) => {
                return ReadStep::Finished(Err(ConnectionError::Socket(error)));
            },
            Ok(bytes) => bytes,
        };
        let mut state = ReadState::DecErr;
        std::mem::swap(&mut state, &mut self.read_state);
        match state {
            ReadState::ReadLen { buf, off } => {
                let mut buf = buf;
                let mut off: usize = off;
                match read_frame_len(&mut buf, &mut off, &bytes) {
                    FrameLen::Eof => {
                        self.read_state = ReadState::Eof { unexpected: false };
                        assert(bytes@ =~= Seq::empty());
                        ReadStep::Finished(Ok(bytes))
                    },
                    FrameLen::More => {
                        self.read_state = ReadState::ReadLen { buf, off };
                        ReadStep::Socket(1)
                    },
                    FrameLen::Complete(n) => {
                        assert(buf@.take(2) =~= buf@);
                        if n == 0 {
                            let buf: [u8; 2] = [0, 0];
                            assert(buf@.take(0) =~= Seq::empty());
                            self.read_state = ReadState::ReadLen { buf, off: 0 };
                            ReadStep::Socket(2)
                        } else {
                            let data: Vec<u8> = Vec::new();
                            assert(data@ =~= Seq::empty());
                            self.read_state = ReadState::ReadData { len: n as usize, data };
                            ReadStep::Socket(n as usize)
                        }
                    },
                }
            },
            ReadState::ReadData { len, data } => {
                if bytes.len() == 0 {
                    self.read_state = ReadState::Eof { unexpected: true };
                    return ReadStep::Finished(Err(ConnectionError::UnexpectedEof));
                }
                let mut data = data;
                let mut bytes = bytes;
                let ghost message = data@ + bytes@;
                data.append(&mut bytes);
                assert(data@ =~= message);
                if data.len() == len {
                    let plaintext = self.decrypt(&data);
                    self.on_decrypted(plaintext, capacity)
                } else {
                    let n: usize = len - data.len();
                    self.read_state = ReadState::ReadData { len, data };
                    ReadStep::Socket(n)
                }
            },
            other => {
                self.read_state = other;
                ReadStep::Socket(0)
            },
        }
    }

    /// Decrypts a message.
    ///
    /// It fails on a message that is too short to hold a tag or too long for a Noise message.
    fn decrypt(&mut self, message: &Vec<u8>) -> (r: Option<Vec<u8>>)
        ensures
            final(self)@ == old(self)@,
            plaintext_view(r) == opened(old(self).session(), message@),
            message@.len() < TAG_LENGTH || message@.len() > MAX_MESSAGE_LENGTH ==> r is None,
            if r is Some {
                received_one(old(self).session(), final(self).session())
            } else {
                final(self).session() == old(self).session()
            },
            r matches Some(plaintext) ==> plaintext@.len() + TAG_LENGTH == message@.len(),
    {
        let mut payload: Vec<u8> = Vec::new();
        payload.resize(message.len(), 0u8);
        let read = read_message(&mut self.noise, message, &mut payload);
        plaintext(read, payload)
    }

    /// Encrypts `buf`: the length of the message and the message, which are to be written to the
    /// socket one after the other.
    ///
    /// It fails if the message would be too long, or if the session is exhausted.
    pub fn write<E>(&mut self, buf: &Vec<u8>) -> (r: Result<([u8; 2], Vec<u8>), ConnectionError<E>>)
        ensures
            final(self)@ == old(self)@,
            buf@.len() + TAG_LENGTH > MAX_MESSAGE_LENGTH ==> r is Err,
            buf@.len() <= MAX_MESSAGE_LENGTH ==> (r is Ok <==> sealed(
                old(self).session(),
                buf@,
            ) is Some),
            match r {
                Ok((size, message)) => {
                    &&& sealed(old(self).session(), buf@) == Some(message@)
                    &&& sent_one(old(self).session(), final(self).session())
                    &&& message@.len() == buf@.len() + TAG_LENGTH
                    &&& message@.len() <= MAX_MESSAGE_LENGTH
                    &&& be_u16(size@) == message@.len()
                },
                Err(error) => {
                    &&& error == ConnectionError::<E>::InvalidData
                    &&& final(self).session() == old(self).session()
                },
            },
    {
        if buf.len() > MAX_MESSAGE_LENGTH {
            return Err(ConnectionError::InvalidData);
        }
        let mut message: Vec<u8> = Vec::new();
        message.resize(buf.len() + WRITE_BUFFER_HEADROOM, 0u8);
        match write_message(&mut self.noise, buf, &mut message) {
            Some(n) => {
                message.truncate(n);
                frame(Some(message))
            },
            None => frame(None),
        }
    }
}

/// The plaintext of a message, whose length the session has replied with and which stands in the
/// front of `payload`, or nothing where the message could not be decrypted.
pub fn plaintext(read: Option<usize>, payload: Vec<u8>) -> (r: Option<Vec<u8>>)
    requires
        read matches Some(n) ==> n <= payload@.len(),
    ensures
        plaintext_view(r) == match read {
            Some(n) => Some(payload@.take(n as int)),
            None => None,
        },
{
    match read {
        Some(n) => {
            let mut front = payload;
            front.truncate(n);
            assert(front@ =~= payload@.take(n as int));
            Some(front)
        },
        None => None,
    }
}

/// A message that has been encrypted together with its length, or the error where it could not be.
pub fn frame<E>(message: Option<Vec<u8>>) -> (r: Result<([u8; 2], Vec<u8>), ConnectionError<E>>)
    requires
        message matches Some(message) ==> message@.len() <= MAX_MESSAGE_LENGTH,
    ensures
        match (message, r) {
            (Some(message), Ok((size, framed))) => {
                &&& framed@ == message@
                &&& be_u16(size@) == message@.len()
            },
            (None, Err(error)) => error == ConnectionError::<E>::InvalidData,
            _ => false,
        },
{
    match message {
        Some(message) => {
            let size = to_be_bytes(message.len() as u16);
            Ok((size, message))
        },
        None => Err(ConnectionError::InvalidData),
    }
}

/// Prefix of static key signatures for domain separation: `noise-libp2p-static-key:`.
pub open spec fn static_key_domain() -> Seq<u8> {
    seq![110u8, 111u8, 105u8, 115u8, 101u8, 45u8, 108u8, 105u8, 98u8, 112u8, 50u8, 112u8, 45u8, 115u8, 116u8, 97u8, 116u8, 105u8, 99u8, 45u8, 107u8, 101u8, 121u8, 58u8]
}

/// What is signed with the identity key in the handshake: the prefix and the static key.
pub fn signed_static_key(public: &Vec<u8>) -> (r: Vec<u8>)
    ensures
        r@ == static_key_domain() + public@,
{
    let mut message: Vec<u8> = vec![110u8, 111u8, 105u8, 115u8, 101u8, 45u8, 108u8, 105u8, 98u8, 112u8, 50u8, 112u8, 45u8, 115u8, 116u8, 97u8, 116u8, 105u8, 99u8, 45u8, 107u8, 101u8, 121u8, 58u8];
    let mut key = copy_bytes(public);
    message.append(&mut key);
    assert(message@ =~= static_key_domain() + public@);
    message
}

/// A message of the handshake, with its length in front.
pub fn handshake_frame(message: &Vec<u8>) -> (r: Vec<u8>)
    requires
        message@.len() <= MAX_HANDSHAKE_LENGTH,
    ensures
        r@.len() == message@.len() + 2,
        be_u16(r@.take(2)) == message@.len(),
        r@.skip(2) == message@,
{
    let size = to_be_bytes(message.len() as u16);
    let mut framed: Vec<u8> = vec![size[0], size[1]];
    let mut copy = copy_bytes(message);
    framed.append(&mut copy);
    assert(framed@.take(2) =~= size@);
    assert(framed@.skip(2) =~= message@);
    framed
}

/// A frame is read as it was written: after the two bytes that [`EncryptedConnection::write`] gives
/// for the length of a message, exactly that message is missing.
pub proof fn law_frame_read_as_written(size: Seq<u8>, message: Seq<u8>)
    requires
        size.len() == 2,
        be_u16(size) == message.len(),
        0 < message.len(),
    ensures
        ({
            let (next, _) = ReadView::Ready.start::<()>(0).0.advance::<()>(size);
            &&& next == ReadView::ReadData { len: message.len(), data: Seq::empty() }
            &&& next.missing() == message.len()
            &&& next.completes(message)
        }),
{
    assert(Seq::<u8>::empty() + size =~= size);
}

/// How the socket cuts the bytes up makes no difference: two pieces lead where both of them at once
/// lead.
pub proof fn law_pieces(state: ReadView, first: Seq<u8>, second: Seq<u8>)
    requires
        state.wf(),
        state is ReadLen || state is ReadData,
        0 < first.len(),
        0 < second.len(),
        first.len() + second.len() <= state.missing(),
    ensures
        !state.completes(first),
        state.advance::<()>(first).0.wf(),
        state.completes(first + second) <==> state.advance::<()>(first).0.completes(second),
        state.advance::<()>(first).0.advance::<()>(second) == state.advance::<()>(first + second),
{
    match state {
        ReadView::ReadLen { read } => {
            assert(read + first + second =~= read + (first + second));
        },
        ReadView::ReadData { data, .. } => {
            assert(data + first + second =~= data + (first + second));
        },
        _ => {},
    }
}

/// What is handed out of a plaintext, followed by what is kept of it, is the plaintext. No more is
/// handed out than there is room for, and nothing only if there is nothing or no room.
pub proof fn law_plaintext_handed_out_in_order(plaintext: Seq<u8>, capacity: nat)
    ensures
        ({
            let (state, step) = ReadView::hand_out::<()>(plaintext, capacity);
            let bytes = step->Finished_0->Ok_0;
            let kept = match state {
                ReadView::ReadBuffered { unread } => unread,
                _ => Seq::empty(),
            };
            &&& step matches StepView::Finished(Ok(_))
            &&& bytes + kept == plaintext
            &&& bytes.len() <= capacity
            &&& bytes.len() == 0 ==> plaintext.len() == 0 || capacity == 0
            &&& state is Ready <==> kept.len() == 0
        }),
{
    if plaintext.len() <= capacity {
        assert(plaintext + Seq::<u8>::empty() =~= plaintext);
    } else {
        assert(plaintext.take(capacity as int) + plaintext.skip(capacity as int) =~= plaintext);
    }
}

/// Nothing leads out of the end of the stream or of a decryption error: every read says the same.
pub proof fn law_terminal(state: ReadView, capacity: nat)
    requires
        state is Eof || state is DecErr,
    ensures
        state.start::<()>(capacity).0 == state,
        state.start::<()>(capacity).1 is Finished,
{
}

/// The length of a frame has its most significant byte first, and no two lengths look the same.
pub proof fn law_length_on_wire(high: u8, low: u8, other: Seq<u8>)
    requires
        other.len() == 2,
    ensures
        be_u16(seq![high, low]) == 256 * high + low,
        be_u16(seq![high, low]) <= MAX_MESSAGE_LENGTH,
        be_u16(other) == be_u16(seq![high, low]) ==> other == seq![high, low],
{
    if be_u16(other) == be_u16(seq![high, low]) {
        assert(other[0] * 256 + other[1] == high * 256 + low);
        assert(other[0] == high && other[1] == low);
        assert(other =~= seq![high, low]);
    }
}

/// A message that can be decrypted is read from its frame: asked for a length and then for the
/// message, the reader gets the plaintext if there is room for it.
pub proof fn law_frame_read(size: Seq<u8>, message: Seq<u8>, plaintext: Seq<u8>, capacity: nat)
    requires
        size.len() == 2,
        0 < message.len(),
        size[0] * 256 + size[1] == message.len(),
        plaintext.len() <= capacity,
    ensures
        ({
            let (length, first) = ReadView::Ready.start::<()>(capacity);
            let (data, second) = length.advance::<()>(size);
            let (after, last) = ReadView::decrypted::<()>(Some(plaintext), capacity);
            &&& first == StepView::<()>::Socket(2)
            &&& second == StepView::<()>::Socket(message.len())
            &&& data.completes(message)
            &&& forall|part: Seq<u8>|
                part.len() < message.len() ==> !#[trigger] data.completes(part)
            &&& last == StepView::<()>::Finished(Ok(plaintext))
            &&& after is Ready
        }),
{
    assert(Seq::<u8>::empty() + size =~= size);
}

/// What is left of a plaintext is handed out by the next reads, before anything else is read, and
/// never more of it than there is room for.
pub proof fn law_rest_of_plaintext_read(plaintext: Seq<u8>, first: nat, second: nat)
    requires
        first < plaintext.len(),
    ensures
        ({
            let (kept, some) = ReadView::decrypted::<()>(Some(plaintext), first);
            let (after, rest) = kept.start::<()>(second);
            let left = plaintext.skip(first as int);
            &&& some == StepView::<()>::Finished(Ok(plaintext.take(first as int)))
            &&& left.len() <= second ==> rest == StepView::<()>::Finished(Ok(left)) && after is Ready
            &&& left.len() > second ==> rest == StepView::<()>::Finished(Ok(left.take(second as int)))
                && after == (ReadView::ReadBuffered { unread: left.skip(second as int) })
        }),
{
}

/// A message that cannot be decrypted is the end of all reading: from then on every read fails.
pub proof fn law_bad_message_ends_reading(capacity: nat, later: nat)
    ensures
        ({
            let (state, step) = ReadView::decrypted::<()>(None, capacity);
            let (after, next) = state.start::<()>(later);
            let failure = StepView::<()>::Finished(Err(ConnectionError::InvalidData));
            step == failure && next == failure && after == state
        }),
{
}

/// A stream that ends between two frames has nothing more to read, and one that ends inside of a
/// message has been cut off; every later read says the same.
pub proof fn law_end_of_stream(len: nat, data: Seq<u8>, capacity: nat)
    requires
        data.len() < len,
    ensures
        ({
            let none = Seq::<u8>::empty();
            let (ended, step) = ReadView::Ready.start::<()>(capacity).0.advance::<()>(none);
            let nothing = StepView::<()>::Finished(Ok(none));
            step == nothing && ended.start::<()>(capacity) == (ended, nothing)
        }),
        ({
            let none = Seq::<u8>::empty();
            let (cut, step) = ReadView::ReadData { len, data }.advance::<()>(none);
            let failure = StepView::<()>::Finished(Err(ConnectionError::UnexpectedEof));
            step == failure && cut.start::<()>(capacity) == (cut, failure)
        }),
{
}

/// What is signed together with a static key is the text that the protocol prescribes.
pub proof fn law_static_key_domain()
    ensures
        static_key_domain().len() == "noise-libp2p-static-key:"@.len(),
        forall|i: int|
            0 <= i < static_key_domain().len() ==> #[trigger] static_key_domain()[i]
                == "noise-libp2p-static-key:"@[i] as u8,
{
    reveal_strlit("noise-libp2p-static-key:");
}

} // verus!
