//! [`/ipfs/bitswap/1.2.0`](https://github.com/ipfs/specs/blob/main/BITSWAP.md) implementation.

use self::content_id::{Cid, CidView};
use self::handle::{BitswapCommand, BitswapEvent, EventView, ResponseType, ResponseView, WantType};
use self::message::{on_message_received, request_message, response_message};
use self::schema::{Message, MessageView};
use crate::collections;
use crate::collections::{AssocMap, AssocSet};
use crate::error::{Error, SubstreamError};
use crate::peer_id::PeerId;
use crate::protocol::{Direction, TransportEvent};
use vstd::prelude::*;

pub mod config;
pub mod content_id;
pub mod handle;
pub mod laws;
pub mod message;
pub mod metrics;
pub mod prefix;
pub mod schema;

verus! {

/// Write timeout for outbound messages, in nanoseconds.
pub const WRITE_TIMEOUT: u64 = 15_000_000_000;

/// Action to perform when substream is opened.
#[derive(Debug, PartialEq, Eq)]
pub enum SubstreamAction {
    /// Send a request.
    SendRequest(Vec<(Cid, WantType)>),
    /// Send a response.
    SendResponse(Vec<ResponseType>),
}

/// Action to perform when substream is opened, by its view.
pub enum SubstreamActionView {
    /// Send a request.
    SendRequest(Seq<(CidView, WantType)>),
    /// Send a response.
    SendResponse(Seq<ResponseView>),
}

impl View for SubstreamAction {
    type V = SubstreamActionView;

    open spec fn view(&self) -> SubstreamActionView {
        match *self {
            SubstreamAction::SendRequest(cids) => SubstreamActionView::SendRequest(
                handle::want_views(cids@),
            ),
            SubstreamAction::SendResponse(responses) => SubstreamActionView::SendResponse(
                handle::response_views(responses@),
            ),
        }
    }
}

impl SubstreamActionView {
    /// The message to send.
    pub open spec fn message(self) -> MessageView {
        match self {
            SubstreamActionView::SendRequest(cids) => message::request_view(cids),
            SubstreamActionView::SendResponse(responses) => message::response_view(responses),
        }
    }
}

impl SubstreamAction {
    /// The message to send.
    pub fn message(&self) -> (r: Message)
        ensures
            r@ == self@.message(),
    {
        match self {
            SubstreamAction::SendRequest(cids) => request_message(cids),
            SubstreamAction::SendResponse(responses) => response_message(responses),
        }
    }
}

/// Actions, by their views.
pub open spec fn pending_view(actions: Seq<SubstreamAction>) -> Seq<SubstreamActionView> {
    Seq::new(actions.len(), |i: int| actions[i]@)
}

/// The view of a list of actions.
pub open spec fn queue_view(actions: Vec<SubstreamAction>) -> Seq<SubstreamActionView> {
    pending_view(actions@)
}

/// How sending a message within the timeout went.
#[derive(Clone, Copy, Debug, PartialEq, Eq, Structural)]
pub enum WriteOutcome {
    /// The timeout expired.
    TimedOut,
    /// The substream failed.
    Failed(SubstreamError),
    /// The message was sent.
    Sent,
}

/// The error of a message that was not sent.
pub fn send_result(outcome: WriteOutcome) -> (r: Result<(), Error>)
    ensures
        r == (match outcome {
            WriteOutcome::TimedOut => Err::<(), Error>(Error::Timeout),
            WriteOutcome::Failed(error) => Err(Error::SubstreamError(error)),
            WriteOutcome::Sent => Ok(()),
        }),
{
    match outcome {
        WriteOutcome::TimedOut => Err(Error::Timeout),
        WriteOutcome::Failed(error) => Err(Error::SubstreamError(error)),
        WriteOutcome::Sent => Ok(()),
    }
}

/// How dialing a peer went.
#[derive(Clone, Copy, Debug, PartialEq, Eq, Structural)]
pub enum DialOutcome {
    /// The transport has started to dial.
    Started,
    /// By the time of the dial, the peer was connected.
    AlreadyConnected,
    /// The peer cannot be dialed, or was not.
    Failed,
}

/// What is left to do for the caller.
#[derive(Debug, PartialEq, Eq)]
pub enum Action<S> {
    /// Report an event to the user.
    Report(BitswapEvent),
    /// Read messages of `peer` from `substream`, and no longer from an earlier one.
    ReadFrom {
        /// Peer ID.
        peer: PeerId,
        /// Inbound substream.
        substream: S,
    },
    /// Drop the inbound substream of `peer`.
    DropInbound {
        /// Peer ID.
        peer: PeerId,
    },
    /// Send the message of `action` over the open outbound substream of `peer`, and tell how it
    /// went.
    Send {
        /// Peer ID.
        peer: PeerId,
        /// What to send.
        action: SubstreamAction,
    },
    /// Send the messages of `actions` over `substream` up to the first failure, and tell how it
    /// went. If all are sent, `substream` is the open outbound substream of `peer`.
    SendAll {
        /// Peer ID.
        peer: PeerId,
        /// Outbound substream.
        substream: S,
        /// What to send.
        actions: Vec<SubstreamAction>,
    },
    /// Open a substream to `peer`, or dial it if there is no connection, and tell how it went.
    OpenSubstreamOrDial {
        /// Peer ID.
        peer: PeerId,
    },
    /// Open a substream to `peer`, and tell if it cannot be opened.
    OpenSubstream {
        /// Peer ID.
        peer: PeerId,
    },
    /// Try once more to open a substream to `peer`.
    Reopen {
        /// Peer ID.
        peer: PeerId,
    },
}

/// What is left to do for the caller, by its view.
pub enum ActionView<S> {
    /// Report an event to the user.
    Report(EventView),
    /// Read messages of a peer.
    ReadFrom {
        /// Peer ID.
        peer: PeerId,
        /// Inbound substream.
        substream: S,
    },
    /// Drop the inbound substream of a peer.
    DropInbound {
        /// Peer ID.
        peer: PeerId,
    },
    /// Send a message.
    Send {
        /// Peer ID.
        peer: PeerId,
        /// What to send.
        action: SubstreamActionView,
    },
    /// Send messages.
    SendAll {
        /// Peer ID.
        peer: PeerId,
        /// Outbound substream.
        substream: S,
        /// What to send.
        actions: Seq<SubstreamActionView>,
    },
    /// Open a substream or dial.
    OpenSubstreamOrDial {
        /// Peer ID.
        peer: PeerId,
    },
    /// Open a substream.
    OpenSubstream {
        /// Peer ID.
        peer: PeerId,
    },
    /// Try once more to open a substream.
    Reopen {
        /// Peer ID.
        peer: PeerId,
    },
}

impl<S> View for Action<S> {
    type V = ActionView<S>;

    open spec fn view(&self) -> ActionView<S> {
        match *self {
            Action::Report(event) => ActionView::Report(event@),
            Action::ReadFrom { peer, substream } => ActionView::ReadFrom { peer, substream },
            Action::DropInbound { peer } => ActionView::DropInbound { peer },
            Action::Send { peer, action } => ActionView::Send { peer, action: action@ },
            Action::SendAll { peer, substream, actions } => ActionView::SendAll {
                peer,
                substream,
                actions: pending_view(actions@),
            },
            Action::OpenSubstreamOrDial { peer } => ActionView::OpenSubstreamOrDial { peer },
            Action::OpenSubstream { peer } => ActionView::OpenSubstream { peer },
            Action::Reopen { peer } => ActionView::Reopen { peer },
        }
    }
}

/// Actions, by their views.
pub open spec fn action_views<S>(actions: Seq<Action<S>>) -> Seq<ActionView<S>> {
    Seq::new(actions.len(), |i: int| actions[i]@)
}

/// What happens next in the life of the protocol.
#[derive(Debug, PartialEq, Eq)]
pub enum BitswapInput<S> {
    /// An event of the transport.
    Transport(TransportEvent<S>),
    /// A command of the user.
    Command(BitswapCommand),
    /// A message has come in, or the inbound substream is closed or holds what is no message.
    Inbound {
        /// Peer ID.
        peer: PeerId,
        /// Message.
        message: Option<Message>,
    },
    /// How [`Action::Send`] went.
    Sent {
        /// Peer ID.
        peer: PeerId,
        /// What was to be sent.
        action: SubstreamAction,
        /// Whether it was sent.
        sent: bool,
    },
    /// How [`Action::SendAll`] went.
    AllSent {
        /// Peer ID.
        peer: PeerId,
        /// Whether everything was sent.
        sent: bool,
    },
    /// How [`Action::OpenSubstreamOrDial`] went.
    Opened {
        /// Peer ID.
        peer: PeerId,
        /// Whether a substream is being opened.
        opened: bool,
        /// How dialing went, if no substream is being opened.
        dialed: DialOutcome,
    },
    /// A substream could not be opened after [`Action::OpenSubstream`].
    OpenRefused {
        /// Peer ID.
        peer: PeerId,
    },
    /// One of the channels is closed.
    Exhausted,
}

/// The state of the protocol.
#[verifier::ext_equal]
pub struct BitswapView {
    /// Pending outbound actions.
    pub pending_outbound: Map<PeerId, Seq<SubstreamActionView>>,
    /// Peers with an open outbound substream.
    pub outbound: Set<PeerId>,
    /// Peers waiting for dial.
    pub pending_dials: Set<PeerId>,
}

impl BitswapView {
    /// What waits for a substream to `peer`.
    pub open spec fn pending(self, peer: PeerId) -> Seq<SubstreamActionView> {
        if self.pending_outbound.contains_key(peer) {
            self.pending_outbound[peer]
        } else {
            Seq::empty()
        }
    }

    /// An action waits for a substream, which is asked for if nothing has been waiting.
    pub open spec fn queued<S>(self, peer: PeerId, action: SubstreamActionView) -> (
        Self,
        Seq<ActionView<S>>,
    ) {
        (
            BitswapView {
                pending_outbound: self.pending_outbound.insert(
                    peer,
                    self.pending(peer).push(action),
                ),
                ..self
            },
            if self.pending(peer).len() == 0 {
                seq![ActionView::OpenSubstreamOrDial { peer }]
            } else {
                Seq::empty()
            },
        )
    }

    /// The user has something to send.
    pub open spec fn on_send<S>(self, peer: PeerId, action: SubstreamActionView) -> (
        Self,
        Seq<ActionView<S>>,
    ) {
        if self.outbound.contains(peer) {
            (self, seq![ActionView::Send { peer, action }])
        } else {
            self.queued(peer, action)
        }
    }

    /// How sending over the open substream went.
    pub open spec fn on_sent<S>(self, peer: PeerId, action: SubstreamActionView, sent: bool) -> (
        Self,
        Seq<ActionView<S>>,
    ) {
        if sent {
            (self, Seq::empty())
        } else {
            BitswapView { outbound: self.outbound.remove(peer), ..self }.queued(peer, action)
        }
    }

    /// An outbound substream has opened.
    pub open spec fn on_outbound_substream<S>(self, peer: PeerId, substream: S) -> (
        Self,
        Seq<ActionView<S>>,
    ) {
        if self.pending_outbound.contains_key(peer) {
            (
                BitswapView { pending_outbound: self.pending_outbound.remove(peer), ..self },
                seq![
                    ActionView::SendAll { peer, substream, actions: self.pending_outbound[peer] },
                ],
            )
        } else {
            (self, Seq::empty())
        }
    }

    /// There is a connection to `peer`.
    pub open spec fn on_connection_established<S>(self, peer: PeerId) -> (
        Self,
        Seq<ActionView<S>>,
    ) {
        if self.pending_dials.contains(peer) {
            (
                BitswapView { pending_dials: self.pending_dials.remove(peer), ..self },
                seq![ActionView::OpenSubstream { peer }],
            )
        } else {
            (self, Seq::empty())
        }
    }

    /// What an input does.
    pub open spec fn on_input<S>(self, input: BitswapInput<S>) -> (Self, Seq<ActionView<S>>) {
        match input {
            BitswapInput::Transport(TransportEvent::ConnectionEstablished { peer, .. }) =>
                self.on_connection_established(peer),
            BitswapInput::Transport(
                TransportEvent::SubstreamOpened { peer, substream, direction, .. },
            ) => match direction {
                Direction::Inbound => (self, seq![ActionView::ReadFrom { peer, substream }]),
                Direction::Outbound(_) => self.on_outbound_substream(peer, substream),
            },
            BitswapInput::Transport(_) => (self, Seq::empty()),
            BitswapInput::Command(BitswapCommand::SendRequest { peer, cids }) => self.on_send(
                peer,
                SubstreamActionView::SendRequest(handle::want_views(cids@)),
            ),
            BitswapInput::Command(BitswapCommand::SendResponse { peer, responses }) => self.on_send(
                peer,
                SubstreamActionView::SendResponse(handle::response_views(responses@)),
            ),
            BitswapInput::Inbound { peer, message } => (
                self,
                match message {
                    Some(message) => {
                        let events = message::received(peer, message@);
                        Seq::new(events.len(), |i: int| ActionView::Report(events[i]))
                    },
                    None => seq![ActionView::DropInbound { peer }],
                },
            ),
            BitswapInput::Sent { peer, action, sent } => self.on_sent(peer, action@, sent),
            BitswapInput::AllSent { peer, sent } => (
                if sent {
                    BitswapView { outbound: self.outbound.insert(peer), ..self }
                } else {
                    self
                },
                Seq::empty(),
            ),
            BitswapInput::Opened { peer, opened, dialed } => (
                if !opened && dialed is Started {
                    BitswapView { pending_dials: self.pending_dials.insert(peer), ..self }
                } else {
                    self
                },
                if !opened && dialed is AlreadyConnected {
                    seq![ActionView::Reopen { peer }]
                } else {
                    Seq::empty()
                },
            ),
            BitswapInput::OpenRefused { peer } => (
                BitswapView { pending_outbound: self.pending_outbound.remove(peer), ..self },
                Seq::empty(),
            ),
            BitswapInput::Exhausted => (self, Seq::empty()),
        }
    }
}

/// Bitswap protocol.
pub struct Bitswap {
    /// Pending outbound actions.
    pending_outbound: AssocMap<PeerId, Vec<SubstreamAction>>,
    /// Peers with an open outbound substream.
    outbound: AssocSet<PeerId>,
    /// Peers waiting for dial.
    pending_dials: AssocSet<PeerId>,
}

impl View for Bitswap {
    type V = BitswapView;

    closed spec fn view(&self) -> BitswapView {
        BitswapView {
            pending_outbound: self.pending_outbound@.map_values(
                |actions: Vec<SubstreamAction>| queue_view(actions),
            ),
            outbound: self.outbound@,
            pending_dials: self.pending_dials@,
        }
    }
}

impl Bitswap {
    /// Create new [`Bitswap`] protocol.
    pub fn new() -> (r: Self)
        ensures
            r@ == (BitswapView {
                pending_outbound: Map::empty(),
                outbound: Set::empty(),
                pending_dials: Set::empty(),
            }),
    {
        let r = Bitswap {
            pending_outbound: AssocMap::new(),
            outbound: AssocSet::new(),
            pending_dials: AssocSet::new(),
        };
        assert(r@.pending_outbound =~= Map::empty());
        r
    }

    /// Whether there is an open outbound substream to `peer`.
    pub fn has_outbound(&self, peer: &PeerId) -> (r: bool)
        ensures
            r == self@.outbound.contains(*peer),
    {
        self.outbound.contains(peer)
    }

    /// Takes out what waits for a substream to `peer`.
    fn take_pending(&mut self, peer: &PeerId) -> (r: Option<Vec<SubstreamAction>>)
        ensures
            final(self)@ == (BitswapView {
                pending_outbound: old(self)@.pending_outbound.remove(*peer),
                ..old(self)@
            }),
            match r {
                Some(actions) => old(self)@.pending_outbound.contains_key(*peer) && pending_view(
                    actions@,
                ) == old(self)@.pending_outbound[*peer],
                None => !old(self)@.pending_outbound.contains_key(*peer),
            },
    {
        proof {
            collections::lemma_map_values_remove(
                self.pending_outbound@,
                |actions: Vec<SubstreamAction>| queue_view(actions),
                *peer,
            );
        }
        self.pending_outbound.remove(peer)
    }

    /// Lets an action wait for a substream to `peer`.
    fn queue<S>(&mut self, peer: PeerId, action: SubstreamAction) -> (r: Vec<Action<S>>)
        ensures
            (final(self)@, action_views(r@)) == old(self)@.queued::<S>(peer, action@),
    {
        let ghost before = self@;
        let ghost expected = before.queued::<S>(peer, action@);
        let mut pending = match self.take_pending(&peer) {
            Some(pending) => pending,
            None => Vec::new(),
        };
        assert(pending_view(pending@) =~= before.pending(peer));
        assert(pending@.len() == pending_view(pending@).len());
        // If nothing is pending, no substream was requested by previous commands. It is requested
        // in this case below.
        let no_substream_pending = pending.len() == 0;
        let ghost waiting = pending@;
        pending.push(action);
        proof {
            assert(pending_view(pending@) =~= pending_view(waiting).push(action@));
            collections::lemma_map_values_insert(
                self.pending_outbound@,
                |actions: Vec<SubstreamAction>| queue_view(actions),
                peer,
                pending,
            );
        }
        let _ = self.pending_outbound.insert(peer, pending);
        assert(self@ =~= expected.0);
        let mut actions: Vec<Action<S>> = Vec::new();
        if no_substream_pending {
            actions.push(Action::OpenSubstreamOrDial { peer });
        }
        assert(action_views(actions@) =~= expected.1);
        actions
    }

    /// The user has something to send: over the open substream, if there is one.
    fn send<S>(&mut self, peer: PeerId, action: SubstreamAction) -> (r: Vec<Action<S>>)
        ensures
            (final(self)@, action_views(r@)) == old(self)@.on_send::<S>(peer, action@),
    {
        let ghost expected = self@.on_send::<S>(peer, action@);
        if self.outbound.contains(&peer) {
            let mut actions: Vec<Action<S>> = Vec::new();
            actions.push(Action::Send { peer, action });
            assert(action_views(actions@) =~= expected.1);
            actions
        } else {
            self.queue(peer, action)
        }
    }

    /// Handle bitswap request.
    pub fn on_bitswap_request<S>(&mut self, peer: PeerId, cids: Vec<(Cid, WantType)>) -> (r: Vec<
        Action<S>,
    >)
        ensures
            (final(self)@, action_views(r@)) == old(self)@.on_send::<S>(
                peer,
                SubstreamActionView::SendRequest(handle::want_views(cids@)),
            ),
    {
        self.send(peer, SubstreamAction::SendRequest(cids))
    }

    /// Handle bitswap response.
    pub fn on_bitswap_response<S>(&mut self, peer: PeerId, responses: Vec<ResponseType>) -> (r: Vec<
        Action<S>,
    >)
        ensures
            (final(self)@, action_views(r@)) == old(self)@.on_send::<S>(
                peer,
                SubstreamActionView::SendResponse(handle::response_views(responses@)),
            ),
    {
        self.send(peer, SubstreamAction::SendResponse(responses))
    }

    /// How sending over the open substream went: if it failed, the substream is given up and the
    /// action waits for another one.
    pub fn on_sent<S>(&mut self, peer: PeerId, action: SubstreamAction, sent: bool) -> (r: Vec<
        Action<S>,
    >)
        ensures
            (final(self)@, action_views(r@)) == old(self)@.on_sent::<S>(peer, action@, sent),
    {
        if sent {
            let actions: Vec<Action<S>> = Vec::new();
            assert(action_views(actions@) =~= Seq::empty());
            actions
        } else {
            let _ = self.outbound.remove(&peer);
            assert(self@ =~= (BitswapView {
                outbound: old(self)@.outbound.remove(peer),
                ..old(self)@
            }));
            self.queue(peer, action)
        }
    }

    /// Substream opened to remote peer.
    ///
    /// Only one inbound substream per peer is allowed in order to constrain resources.
    pub fn on_inbound_substream<S>(&self, peer: PeerId, substream: S) -> (r: Vec<Action<S>>)
        ensures
            action_views(r@) == seq![ActionView::ReadFrom { peer, substream }],
    {
        let mut actions: Vec<Action<S>> = Vec::new();
        actions.push(Action::ReadFrom { peer, substream });
        assert(action_views(actions@) =~= seq![ActionView::ReadFrom { peer, substream }]);
        actions
    }

    /// Handle opened outbound substream.
    pub fn on_outbound_substream<S>(&mut self, peer: PeerId, substream: S) -> (r: Vec<Action<S>>)
        ensures
            (final(self)@, action_views(r@)) == old(self)@.on_outbound_substream(peer, substream),
    {
        let ghost expected = self@.on_outbound_substream(peer, substream);
        let pending = self.take_pending(&peer);
        assert(self@ =~= expected.0);
        let mut actions: Vec<Action<S>> = Vec::new();
        if let Some(pending) = pending {
            actions.push(Action::SendAll { peer, substream, actions: pending });
        }
        assert(action_views(actions@) =~= expected.1);
        actions
    }

    /// Handle connection established event: if there are pending actions for this peer, a substream
    /// is opened.
    pub fn on_connection_established<S>(&mut self, peer: PeerId) -> (r: Vec<Action<S>>)
        ensures
            (final(self)@, action_views(r@)) == old(self)@.on_connection_established::<S>(peer),
    {
        let ghost expected = self@.on_connection_established::<S>(peer);
        let mut actions: Vec<Action<S>> = Vec::new();
        if self.pending_dials.remove(&peer) {
            actions.push(Action::OpenSubstream { peer });
        }
        assert(self@ =~= expected.0);
        assert(action_views(actions@) =~= expected.1);
        actions
    }

    /// Open substream or dial a peer: `opened` says whether the transport has started to open a
    /// substream, and `dialed` how dialing went if it has not.
    pub fn open_substream_or_dial<S>(
        &mut self,
        peer: PeerId,
        opened: bool,
        dialed: DialOutcome,
    ) -> (r: Vec<Action<S>>)
        ensures
            (final(self)@, action_views(r@)) == old(self)@.on_input(
                BitswapInput::<S>::Opened { peer, opened, dialed },
            ),
    {
        let ghost expected = self@.on_input(BitswapInput::<S>::Opened { peer, opened, dialed });
        let mut actions: Vec<Action<S>> = Vec::new();
        if !opened {
            match dialed {
                DialOutcome::Started => {
                    // Store the peer to open a substream once it is connected.
                    let _ = self.pending_dials.insert(peer);
                },
                DialOutcome::AlreadyConnected => {
                    actions.push(Action::Reopen { peer });
                },
                DialOutcome::Failed => {},
            }
        }
        assert(self@ =~= expected.0);
        assert(action_views(actions@) =~= expected.1);
        actions
    }

    /// Handle the next input.
    pub fn next_event<S>(&mut self, input: BitswapInput<S>) -> (r: Vec<Action<S>>)
        ensures
            (final(self)@, action_views(r@)) == old(self)@.on_input(input),
    {
        let ghost expected = self@.on_input(input);
        let mut actions: Vec<Action<S>> = Vec::new();
        assert(action_views(actions@) =~= Seq::empty());
        match input {
            BitswapInput::Transport(event) => match event {
                TransportEvent::ConnectionEstablished { peer, .. } => {
                    self.on_connection_established(peer)
                },
                TransportEvent::SubstreamOpened { peer, substream, direction, .. } => {
                    match direction {
                        Direction::Inbound => self.on_inbound_substream(peer, substream),
                        Direction::Outbound(_) => self.on_outbound_substream(peer, substream),
                    }
                },
                _ => actions,
            },
            BitswapInput::Command(BitswapCommand::SendRequest { peer, cids }) => {
                self.on_bitswap_request(peer, cids)
            },
            BitswapInput::Command(BitswapCommand::SendResponse { peer, responses }) => {
                self.on_bitswap_response(peer, responses)
            },
            BitswapInput::Inbound { peer, message } => {
                match message {
                    Some(message) => report_all(on_message_received(peer, &message)),
                    None => {
                        actions.push(Action::DropInbound { peer });
                        assert(action_views(actions@) =~= expected.1);
                        actions
                    },
                }
            },
            BitswapInput::Sent { peer, action, sent } => self.on_sent(peer, action, sent),
            BitswapInput::AllSent { peer, sent } => {
                if sent {
                    let _ = self.outbound.insert(peer);
                }
                assert(self@ =~= expected.0);
                actions
            },
            BitswapInput::Opened { peer, opened, dialed } => {
                self.open_substream_or_dial(peer, opened, dialed)
            },
            BitswapInput::OpenRefused { peer } => {
                // Drop all pending actions; they are not going to be handled anyway, and the entry
                // has to be empty to properly open subsequent substreams.
                let _ = self.take_pending(&peer);
                actions
            },
            BitswapInput::Exhausted => actions,
        }
    }
}

/// One report for each event, in order.
fn report_all<S>(events: Vec<BitswapEvent>) -> (r: Vec<Action<S>>)
    ensures
        action_views(r@) == Seq::new(
            events@.len(),
            |i: int| ActionView::<S>::Report(message::event_views(events@)[i]),
        ),
{
    let ghost all = events@;
    let mut events = events;
    let mut actions: Vec<Action<S>> = Vec::new();
    while events.len() > 0
        invariant
            actions@.len() + events@.len() == all.len(),
            events@ == all.skip(actions@.len() as int),
            forall|i: int|
                0 <= i < actions@.len() ==> #[trigger] actions@[i]@ == ActionView::<S>::Report(
                    all[i]@,
                ),
        decreases events@.len(),
    {
        let event = events.remove(0);
        actions.push(Action::Report(event));
    }
    assert(action_views(actions@) =~= Seq::new(
        all.len(),
        |i: int| ActionView::<S>::Report(message::event_views(all)[i]),
    ));
    actions
}

/// What is sent to a peer without an open substream goes out in the order in which it was sent, once
/// a substream opens, and one substream is asked for.
pub proof fn law_pending_in_order<S>(
    state: BitswapView,
    peer: PeerId,
    first: SubstreamActionView,
    second: SubstreamActionView,
    substream: S,
)
    requires
        !state.outbound.contains(peer),
        state.pending(peer).len() == 0,
    ensures
        ({
            let (once, asked) = state.on_send::<S>(peer, first);
            let (twice, none) = once.on_send::<S>(peer, second);
            let (_, sent) = twice.on_outbound_substream(peer, substream);
            &&& asked == seq![ActionView::<S>::OpenSubstreamOrDial { peer }]
            &&& none.len() == 0
            &&& sent == seq![
                ActionView::SendAll { peer, substream, actions: seq![first, second] },
            ]
        }),
{
    assert(Seq::<SubstreamActionView>::empty().push(first).push(second) =~= seq![first, second]);
    assert(state.pending(peer) =~= Seq::empty());
}

/// What cannot be sent over the open substream is not lost: it waits for another one.
pub proof fn law_failed_send_waits<S>(state: BitswapView, peer: PeerId, action: SubstreamActionView)
    ensures
        ({
            let (next, _) = state.on_sent::<S>(peer, action, false);
            &&& !next.outbound.contains(peer)
            &&& next.pending(peer) == state.pending(peer).push(action)
        }),
{
}

} // verus!
