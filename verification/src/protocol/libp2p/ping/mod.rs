//! [`/ipfs/ping/1.0.0`](https://github.com/libp2p/specs/blob/master/ping/ping.md) implementation.

use self::config::{PingConfig, PING_PAYLOAD_SIZE};
use crate::collections::AssocSet;
use crate::error::SubstreamError;
use crate::peer_id::PeerId;
use crate::protocol::{Direction, TransportEvent};
use crate::random::random_bytes;
use crate::types::{same_bytes, SubstreamId};
use vstd::prelude::*;

pub mod config;

verus! {

/// How long a ping may take, in nanoseconds.
pub const PING_TIMEOUT: u64 = 20_000_000_000;

/// Events emitted by the ping protocol.
#[derive(Clone, Copy, Debug, PartialEq, Eq)]
pub enum PingEvent {
    /// Ping time with remote peer.
    Ping {
        /// Peer ID.
        peer: PeerId,
        /// Measured ping time with the peer, in nanoseconds.
        ping: u64,
    },
}

/// Possible error of the outbound ping.
#[derive(Clone, Copy, Debug, PartialEq, Eq, Structural)]
pub enum PingError {
    /// Substream error.
    SubstreamError(SubstreamError),
    /// Invalid payload received.
    InvalidPayload,
    /// Timeout.
    Timeout,
}

/// How one ping went.
#[derive(Debug, PartialEq, Eq)]
pub enum PingReply {
    /// The payload could not be sent, or nothing could be read.
    Failed(SubstreamError),
    /// The remote peer has closed the substream.
    Closed,
    /// The ping took longer than [`PING_TIMEOUT`].
    TimedOut,
    /// The remote peer has sent a payload.
    Received {
        /// Payload.
        payload: Vec<u8>,
        /// How long that took, in nanoseconds.
        elapsed: u64,
    },
}

/// The time that a ping over a substream took, or why it failed.
pub open spec fn ping_result(substream_id: SubstreamId, payload: Seq<u8>, reply: PingReply) -> Result<
    u64,
    PingError,
> {
    match reply {
        PingReply::Failed(error) => Err(PingError::SubstreamError(error)),
        PingReply::Closed => Err(
            PingError::SubstreamError(SubstreamError::ReadFailure(Some(substream_id))),
        ),
        PingReply::TimedOut => Err(PingError::Timeout),
        PingReply::Received { payload: received, elapsed } => if received@ == payload {
            Ok(elapsed)
        } else {
            Err(PingError::InvalidPayload)
        },
    }
}

/// Pings a peer over one substream.
#[derive(Debug, PartialEq, Eq)]
pub struct Pinger {
    /// Substream ID.
    substream_id: SubstreamId,
    /// Whether to wait for the ping interval before the next ping.
    should_wait: bool,
}

impl Pinger {
    /// Whether to wait for the ping interval before the next ping.
    pub closed spec fn waits(self) -> bool {
        self.should_wait
    }

    /// The substream that the pings go over.
    pub closed spec fn id(self) -> SubstreamId {
        self.substream_id
    }

    /// A pinger whose first ping waits for the ping interval, or does not.
    pub fn new(substream_id: SubstreamId, should_wait: bool) -> (r: Self)
        ensures
            r.id() == substream_id,
            r.waits() == should_wait,
    {
        Pinger { substream_id, should_wait }
    }

    /// Whether to wait for the ping interval before the next ping.
    pub fn should_wait(&self) -> (r: bool)
        ensures
            r == self.waits(),
    {
        self.should_wait
    }

    /// A payload for the next ping: bytes that the remote peer cannot know in advance.
    pub fn payload(&self) -> (r: Vec<u8>)
        ensures
            r@.len() == PING_PAYLOAD_SIZE,
    {
        let bytes = random_bytes();
        let mut payload: Vec<u8> = Vec::new();
        let mut i: usize = 0;
        while i < PING_PAYLOAD_SIZE
            invariant
                i <= PING_PAYLOAD_SIZE,
                payload@.len() == i,
            decreases PING_PAYLOAD_SIZE - i,
        {
            payload.push(bytes[i]);
            i += 1;
        }
        payload
    }

    /// How the ping with `payload` went. The next ping waits if this one succeeded.
    pub fn on_reply(&mut self, payload: &Vec<u8>, reply: PingReply) -> (r: Result<u64, PingError>)
        ensures
            r == ping_result(old(self).id(), payload@, reply),
            final(self).waits() == (r is Ok),
            final(self).id() == old(self).id(),
    {
        let result = match reply {
            PingReply::Failed(error) => Err(PingError::SubstreamError(error)),
            PingReply::Closed => Err(
                PingError::SubstreamError(SubstreamError::ReadFailure(Some(self.substream_id))),
            ),
            PingReply::TimedOut => Err(PingError::Timeout),
            PingReply::Received { payload: received, elapsed } => if same_bytes(
                &received,
                payload,
            ) {
                Ok(elapsed)
            } else {
                Err(PingError::InvalidPayload)
            },
        };
        self.should_wait = result.is_ok();
        result
    }
}

/// What is left to do for the caller.
#[derive(Debug, PartialEq, Eq)]
pub enum PingAction<S> {
    /// Report an event to the user.
    Report(PingEvent),
    /// Open a substream to `peer`.
    OpenSubstream {
        /// Peer ID.
        peer: PeerId,
    },
    /// Open a substream to `peer`, and tell if it is being opened.
    ReopenSubstream {
        /// Peer ID.
        peer: PeerId,
    },
    /// Ping `peer` over `substream` from now on.
    StartPinger {
        /// Peer ID.
        peer: PeerId,
        /// Substream ID.
        substream_id: SubstreamId,
        /// Substream.
        substream: S,
        /// Whether the first ping waits for the ping interval.
        should_wait: bool,
    },
    /// No longer ping `peer`.
    StopPinger {
        /// Peer ID.
        peer: PeerId,
    },
    /// Answer the pings of `peer` over `substream`, and no longer over an earlier one.
    StartResponder {
        /// Peer ID.
        peer: PeerId,
        /// Substream.
        substream: S,
    },
    /// No longer answer the pings of `peer`.
    StopResponder {
        /// Peer ID.
        peer: PeerId,
    },
}

/// What happens next in the life of the protocol.
#[derive(Debug, PartialEq, Eq)]
pub enum PingInput<S> {
    /// An event of the transport.
    Transport(TransportEvent<S>),
    /// A responder has terminated.
    ResponderTerminated {
        /// Peer ID.
        peer: PeerId,
    },
    /// A ping went well, or failed.
    Pong {
        /// Peer ID.
        peer: PeerId,
        /// The time that it took, in nanoseconds, or why it failed.
        result: Result<u64, PingError>,
    },
    /// A substream is being opened after [`PingAction::ReopenSubstream`].
    Reopened {
        /// Substream ID.
        substream: SubstreamId,
    },
    /// The transport is gone.
    Exhausted,
}

/// What an input makes of the substreams on which pings are retried, and what is left to do.
pub open spec fn on_input<S>(retries: Set<SubstreamId>, input: PingInput<S>) -> (
    Set<SubstreamId>,
    Seq<PingAction<S>>,
) {
    match input {
        PingInput::Transport(TransportEvent::ConnectionEstablished { peer, .. }) => (
            retries,
            seq![PingAction::OpenSubstream { peer }],
        ),
        PingInput::Transport(
            TransportEvent::SubstreamOpened { peer, direction, substream, .. },
        ) => match direction {
            Direction::Inbound => (retries, seq![PingAction::StartResponder { peer, substream }]),
            Direction::Outbound(id) => (
                retries.remove(id),
                seq![
                    PingAction::StartPinger {
                        peer,
                        substream_id: id,
                        substream,
                        should_wait: retries.contains(id),
                    },
                ],
            ),
        },
        PingInput::Transport(TransportEvent::SubstreamOpenFailure { substream, .. }) => (
            retries.remove(substream),
            Seq::empty(),
        ),
        PingInput::Transport(_) => (retries, Seq::empty()),
        PingInput::ResponderTerminated { peer } => (
            retries,
            seq![PingAction::StopResponder { peer }],
        ),
        PingInput::Pong { peer, result } => (
            retries,
            match result {
                Ok(ping) => seq![PingAction::Report(PingEvent::Ping { peer, ping })],
                Err(_) => seq![
                    PingAction::StopPinger { peer },
                    PingAction::ReopenSubstream { peer },
                ],
            },
        ),
        PingInput::Reopened { substream } => (retries.insert(substream), Seq::empty()),
        PingInput::Exhausted => (retries, Seq::empty()),
    }
}

/// Ping protocol.
pub struct Ping {
    /// Maximum failures before the peer is considered unreachable.
    max_failures: usize,
    /// Substreams on which pings are retried after failure. Used for rate-limiting.
    retries: AssocSet<SubstreamId>,
    /// Interval between outbound pings, in nanoseconds.
    ping_interval: u64,
}

impl View for Ping {
    type V = Set<SubstreamId>;

    /// The substreams on which pings are retried.
    closed spec fn view(&self) -> Set<SubstreamId> {
        self.retries@
    }
}

impl Ping {
    /// The interval between outbound pings, in nanoseconds, and the maximum failures.
    pub closed spec fn settings(self) -> (u64, usize) {
        (self.ping_interval, self.max_failures)
    }

    /// Create new [`Ping`] protocol, which pings each peer once in every `ping_interval`
    /// nanoseconds.
    pub fn new(config: PingConfig, ping_interval: u64) -> (r: Self)
        ensures
            r@ == Set::<SubstreamId>::empty(),
            r.settings() == (ping_interval, config.max_failures),
    {
        Ping { max_failures: config.max_failures, retries: AssocSet::new(), ping_interval }
    }

    /// Interval between outbound pings, in nanoseconds.
    pub fn ping_interval(&self) -> (r: u64)
        ensures
            r == self.settings().0,
    {
        self.ping_interval
    }

    /// Maximum failures before the peer is considered unreachable.
    pub fn max_failures(&self) -> (r: usize)
        ensures
            r == self.settings().1,
    {
        self.max_failures
    }

    /// Connection established to remote peer.
    pub fn on_connection_established<S>(&self, peer: PeerId) -> (r: PingAction<S>)
        ensures
            r == (PingAction::<S>::OpenSubstream { peer }),
    {
        PingAction::OpenSubstream { peer }
    }

    /// Handle outbound substream.
    pub fn on_outbound_substream<S>(
        &mut self,
        peer: PeerId,
        substream_id: SubstreamId,
        substream: S,
    ) -> (r: PingAction<S>)
        ensures
            final(self)@ == old(self)@.remove(substream_id),
            r == (PingAction::StartPinger {
                peer,
                substream_id,
                substream,
                should_wait: old(self)@.contains(substream_id),
            }),
            final(self).settings() == old(self).settings(),
    {
        let should_wait = self.retries.remove(&substream_id);
        PingAction::StartPinger { peer, substream_id, substream, should_wait }
    }

    /// Handle inbound substream.
    pub fn on_inbound_substream<S>(&self, peer: PeerId, substream: S) -> (r: PingAction<S>)
        ensures
            r == (PingAction::StartResponder { peer, substream }),
    {
        PingAction::StartResponder { peer, substream }
    }

    /// Failed to open substream to remote peer.
    pub fn on_substream_open_failure(&mut self, substream: SubstreamId)
        ensures
            final(self)@ == old(self)@.remove(substream),
            final(self).settings() == old(self).settings(),
    {
        let _ = self.retries.remove(&substream);
    }

    /// Handle the next input.
    ///
    /// After [`PingInput::Exhausted`] there is nothing to wait for.
    pub fn next_event<S>(&mut self, input: PingInput<S>) -> (r: Vec<PingAction<S>>)
        ensures
            (final(self)@, r@) == on_input(old(self)@, input),
            final(self).settings() == old(self).settings(),
    {
        let ghost expected = on_input(self@, input);
        let mut actions: Vec<PingAction<S>> = Vec::new();
        match input {
            PingInput::Transport(event) => match event {
                TransportEvent::ConnectionEstablished { peer, .. } => {
                    actions.push(self.on_connection_established(peer));
                },
                TransportEvent::SubstreamOpened { peer, direction, substream, .. } => {
                    match direction {
                        Direction::Inbound => {
                            actions.push(self.on_inbound_substream(peer, substream));
                        },
                        Direction::Outbound(id) => {
                            actions.push(self.on_outbound_substream(peer, id, substream));
                        },
                    }
                },
                TransportEvent::SubstreamOpenFailure { substream, .. } => {
                    self.on_substream_open_failure(substream);
                },
                _ => {},
            },
            PingInput::ResponderTerminated { peer } => {
                actions.push(PingAction::StopResponder { peer });
            },
            PingInput::Pong { peer, result } => match result {
                Ok(ping) => {
                    actions.push(PingAction::Report(PingEvent::Ping { peer, ping }));
                },
                Err(_) => {
                    actions.push(PingAction::StopPinger { peer });
                    actions.push(PingAction::ReopenSubstream { peer });
                },
            },
            PingInput::Reopened { substream } => {
                let _ = self.retries.insert(substream);
            },
            PingInput::Exhausted => {},
        }
        assert(self@ =~= expected.0);
        assert(actions@ =~= expected.1);
        actions
    }
}

/// Pings over a substream that was opened because a ping had failed are held back: the first one
/// waits for the ping interval. Over any other substream it does not.
pub proof fn law_retry_waits<S>(
    retries: Set<SubstreamId>,
    event: TransportEvent<S>,
    failed: SubstreamId,
)
    requires
        event matches TransportEvent::SubstreamOpened { direction, .. }
            && direction is Outbound,
    ensures
        ({
            let id = event->SubstreamOpened_direction->Outbound_0;
            let (reopened, _) = on_input(retries, PingInput::<S>::Reopened { substream: failed });
            let (_, actions) = on_input(reopened, PingInput::Transport(event));
            actions == seq![
                PingAction::StartPinger {
                    peer: event->SubstreamOpened_peer,
                    substream_id: id,
                    substream: event->SubstreamOpened_substream,
                    should_wait: id == failed || retries.contains(id),
                },
            ]
        }),
{
}

/// A ping succeeds if and only if the remote peer sends the payload back in time.
pub proof fn law_ping_echoed(substream_id: SubstreamId, payload: Seq<u8>, reply: PingReply)
    ensures
        ping_result(substream_id, payload, reply) is Ok <==> (reply matches PingReply::Received {
            payload: received,
            ..
        } && received@ == payload),
{
}

/// A peer that connects is pinged: a substream to it is opened, and once it is open the peer is
/// pinged over it, at once.
pub proof fn law_connected_peer_pinged<S>(
    retries: Set<SubstreamId>,
    connection: TransportEvent<S>,
    event: TransportEvent<S>,
    peer: PeerId,
    id: SubstreamId,
    substream: S,
)
    requires
        connection matches TransportEvent::ConnectionEstablished { peer: p, .. } && p == peer,
        event matches TransportEvent::SubstreamOpened { peer: p, direction, substream: s, .. } && p
            == peer && direction == Direction::Outbound(id) && s == substream,
        !retries.contains(id),
    ensures
        ({
            let (waiting, first) = on_input(retries, PingInput::Transport(connection));
            let (after, second) = on_input(waiting, PingInput::Transport(event));
            &&& first == seq![PingAction::<S>::OpenSubstream { peer }]
            &&& second == seq![
                PingAction::StartPinger { peer, substream_id: id, substream, should_wait: false },
            ]
            &&& after =~= retries
        }),
{
}

/// A payload that comes back is a ping of the time that it took, and that is what the user is told.
pub proof fn law_ping_reported<S>(
    retries: Set<SubstreamId>,
    peer: PeerId,
    id: SubstreamId,
    payload: Seq<u8>,
    received: Vec<u8>,
    elapsed: u64,
)
    requires
        received@ == payload,
    ensures
        ({
            let reply = PingReply::Received { payload: received, elapsed };
            let result = ping_result(id, payload, reply);
            on_input(retries, PingInput::<S>::Pong { peer, result }) == (
                retries,
                seq![PingAction::<S>::Report(PingEvent::Ping { peer, ping: elapsed })],
            )
        }),
{
}

/// A ping that fails is not reported. The peer is pinged again over another substream, and not
/// before the ping interval is over.
pub proof fn law_failed_ping_repeated<S>(
    retries: Set<SubstreamId>,
    peer: PeerId,
    error: PingError,
    id: SubstreamId,
    event: TransportEvent<S>,
    substream: S,
)
    requires
        event matches TransportEvent::SubstreamOpened { peer: p, direction, substream: s, .. } && p
            == peer && direction == Direction::Outbound(id) && s == substream,
    ensures
        ({
            let (failed, first) = on_input(
                retries,
                PingInput::<S>::Pong { peer, result: Err(error) },
            );
            let (reopened, second) = on_input(failed, PingInput::<S>::Reopened { substream: id });
            let (after, third) = on_input(reopened, PingInput::Transport(event));
            &&& first == seq![
                PingAction::<S>::StopPinger { peer },
                PingAction::<S>::ReopenSubstream { peer },
            ]
            &&& second.len() == 0
            &&& third == seq![
                PingAction::StartPinger { peer, substream_id: id, substream, should_wait: true },
            ]
            &&& !after.contains(id)
        }),
{
}

/// Every way in which a ping can fail has its own error.
pub proof fn law_ping_errors(
    id: SubstreamId,
    payload: Seq<u8>,
    received: Vec<u8>,
    elapsed: u64,
    error: SubstreamError,
)
    ensures
        ping_result(id, payload, PingReply::Failed(error)) == Err::<u64, PingError>(
            PingError::SubstreamError(error),
        ),
        ping_result(id, payload, PingReply::Closed) == Err::<u64, PingError>(
            PingError::SubstreamError(SubstreamError::ReadFailure(Some(id))),
        ),
        ping_result(id, payload, PingReply::TimedOut) == Err::<u64, PingError>(PingError::Timeout),
        received@ != payload ==> ping_result(
            id,
            payload,
            PingReply::Received { payload: received, elapsed },
        ) == Err::<u64, PingError>(PingError::InvalidPayload),
{
}

/// The pings of a peer are answered over the substream that it has opened, until it ends.
pub proof fn law_pings_answered<S>(
    retries: Set<SubstreamId>,
    event: TransportEvent<S>,
    peer: PeerId,
    substream: S,
)
    requires
        event matches TransportEvent::SubstreamOpened { peer: p, direction, substream: s, .. } && p
            == peer && direction == Direction::Inbound && s == substream,
    ensures
        on_input(retries, PingInput::Transport(event)) == (
            retries,
            seq![PingAction::StartResponder { peer, substream }],
        ),
        on_input(retries, PingInput::<S>::ResponderTerminated { peer }) == (
            retries,
            seq![PingAction::<S>::StopResponder { peer }],
        ),
{
}

/// A substream that could not be opened is forgotten, and so are closed connections and failed
/// dials: nothing is left to do about them.
pub proof fn law_failures_forgotten<S>(retries: Set<SubstreamId>, event: TransportEvent<S>)
    requires
        event is SubstreamOpenFailure || event is ConnectionClosed || event is DialFailure,
    ensures
        ({
            let (after, actions) = on_input(retries, PingInput::Transport(event));
            &&& actions.len() == 0
            &&& after == match event {
                TransportEvent::SubstreamOpenFailure { substream, .. } => retries.remove(substream),
                _ => retries,
            }
        }),
        on_input(retries, PingInput::<S>::Exhausted).1.len() == 0,
{
}

} // verus!
