//! [`/ipfs/identify/1.0.0`](https://github.com/libp2p/specs/blob/master/identify/README.md)
//! implementation.

use crate::address;
use crate::address::Multiaddr;
use crate::collections;
use crate::collections::{AssocMap, AssocSet};
use crate::error::Error;
use crate::peer_id::{PeerId, PublicKey};
use crate::protocol::connection;
use crate::protocol::{Direction, ProtocolCodec, TransportEvent};
use crate::types::{copy_bytes, ProtocolName, SubstreamId};
use vstd::prelude::*;

verus! {

/// IPFS Identify protocol name, which is the name that goes on the wire.
pub const PROTOCOL_NAME: &'static str = "/ipfs/identify/1.0.0";

/// Size for `/ipfs/identify/1.0.0` payloads.
pub const IDENTIFY_PAYLOAD_SIZE: usize = 4096;

/// The message that identifies a peer, as it is encoded.
#[derive(Debug, PartialEq, Eq)]
pub struct IdentifyMessage {
    /// Protocol version.
    pub protocol_version: Option<String>,
    /// Agent version.
    pub agent_version: Option<String>,
    /// Public key.
    pub public_key: Option<Vec<u8>>,
    /// Listen addresses.
    pub listen_addrs: Vec<Vec<u8>>,
    /// Observed address.
    pub observed_addr: Option<Vec<u8>>,
    /// Supported protocols.
    pub protocols: Vec<String>,
}

/// The message that identifies a peer, by its view.
#[verifier::ext_equal]
pub struct IdentifyMessageView {
    /// Protocol version.
    pub protocol_version: Option<Seq<char>>,
    /// Agent version.
    pub agent_version: Option<Seq<char>>,
    /// Public key.
    pub public_key: Option<Seq<u8>>,
    /// Listen addresses.
    pub listen_addrs: Seq<Seq<u8>>,
    /// Observed address.
    pub observed_addr: Option<Seq<u8>>,
    /// Supported protocols.
    pub protocols: Seq<Seq<char>>,
}

/// Byte strings, by their views.
pub open spec fn byte_views(bytes: Seq<Vec<u8>>) -> Seq<Seq<u8>> {
    Seq::new(bytes.len(), |i: int| bytes[i]@)
}

/// Texts, by their views.
pub open spec fn text_views(texts: Seq<String>) -> Seq<Seq<char>> {
    Seq::new(texts.len(), |i: int| texts[i]@)
}

/// An optional text, by its view.
pub open spec fn text_view(text: Option<String>) -> Option<Seq<char>> {
    match text {
        Some(text) => Some(text@),
        None => None,
    }
}

/// An optional byte string, by its view.
pub open spec fn byte_view(bytes: Option<Vec<u8>>) -> Option<Seq<u8>> {
    match bytes {
        Some(bytes) => Some(bytes@),
        None => None,
    }
}

impl View for IdentifyMessage {
    type V = IdentifyMessageView;

    open spec fn view(&self) -> IdentifyMessageView {
        IdentifyMessageView {
            protocol_version: text_view(self.protocol_version),
            agent_version: text_view(self.agent_version),
            public_key: byte_view(self.public_key),
            listen_addrs: byte_views(self.listen_addrs@),
            observed_addr: byte_view(self.observed_addr),
            protocols: text_views(self.protocols@),
        }
    }
}

/// Identify configuration.
pub struct Config {
    /// Protocol name.
    pub protocol: ProtocolName,
    /// Codec used by the protocol.
    pub codec: ProtocolCodec,
    /// Public key of the local node.
    pub public: Option<PublicKey>,
    /// Protocols supported by the local node.
    pub protocols: Vec<ProtocolName>,
    /// Public addresses.
    pub public_addresses: Vec<Multiaddr>,
}

impl Config {
    /// Create new [`Config`].
    ///
    /// The public key and the protocols of the local node are to be filled in.
    pub fn new(public_addresses: Vec<Multiaddr>) -> (r: Self)
        ensures
            r.protocol@ == PROTOCOL_NAME@,
            r.codec == ProtocolCodec::UnsignedVarint(Some(IDENTIFY_PAYLOAD_SIZE)),
            r.public is None,
            r.protocols@.len() == 0,
            r.public_addresses == public_addresses,
    {
        Config {
            protocol: ProtocolName::from_name(PROTOCOL_NAME.to_string()),
            codec: ProtocolCodec::UnsignedVarint(Some(IDENTIFY_PAYLOAD_SIZE)),
            public: None,
            protocols: Vec::new(),
            public_addresses,
        }
    }
}

/// Events emitted by Identify protocol.
#[derive(Debug, PartialEq, Eq)]
pub enum IdentifyEvent {
    /// Peer identified.
    PeerIdentified {
        /// Peer ID.
        peer: PeerId,
        /// Supported protocols.
        supported_protocols: AssocSet<ProtocolName>,
        /// Observed address.
        observed_address: Multiaddr,
        /// Listen addresses.
        listen_addresses: Vec<Multiaddr>,
    },
}

/// Events emitted by Identify protocol, by their views.
pub enum IdentifyEventView {
    /// Peer identified.
    PeerIdentified {
        /// Peer ID.
        peer: PeerId,
        /// Supported protocols.
        supported_protocols: Set<Seq<char>>,
        /// Observed address.
        observed_address: Seq<u8>,
        /// Listen addresses.
        listen_addresses: Seq<Seq<u8>>,
    },
}

impl View for IdentifyEvent {
    type V = IdentifyEventView;

    open spec fn view(&self) -> IdentifyEventView {
        match *self {
            IdentifyEvent::PeerIdentified {
                peer,
                supported_protocols,
                observed_address,
                listen_addresses,
            } => IdentifyEventView::PeerIdentified {
                peer,
                supported_protocols: supported_protocols@,
                observed_address: observed_address@,
                listen_addresses: address::address_views(listen_addresses@),
            },
        }
    }
}

/// What the user learns of the message of a peer: addresses that are none are left out, and an
/// observed address that is none is the empty one.
pub open spec fn identified(peer: PeerId, info: IdentifyMessageView) -> IdentifyEventView {
    IdentifyEventView::PeerIdentified {
        peer,
        supported_protocols: info.protocols.to_set(),
        observed_address: match info.observed_addr {
            Some(address) => if address::is_multiaddr(address) {
                address
            } else {
                Seq::empty()
            },
            None => Seq::empty(),
        },
        listen_addresses: info.listen_addrs.filter(
            |address: Seq<u8>| address::is_multiaddr(address),
        ),
    }
}

/// Adds the addresses of a list to a set.
fn add_addresses(set: &mut AssocSet<Multiaddr>, addresses: &Vec<Multiaddr>)
    ensures
        final(set)@ == old(set)@.union(address::address_views(addresses@).to_set()),
{
    let ghost all = address::address_views(addresses@);
    let ghost before = set@;
    let mut i: usize = 0;
    while i < addresses.len()
        invariant
            i <= addresses@.len(),
            all == address::address_views(addresses@),
            set@ =~= before.union(all.take(i as int).to_set()),
        decreases addresses@.len() - i,
    {
        let _ = set.insert(addresses[i].clone());
        proof {
            let now = all.take(i + 1);
            assert(now =~= all.take(i as int).push(all[i as int]));
            assert forall|a: Seq<u8>| #[trigger]
                now.to_set().contains(a) <==> all.take(i as int).to_set().contains(a) || a
                    == all[i as int] by {
                if all.take(i as int).contains(a) {
                    let j = choose|j: int| 0 <= j < i && all.take(i as int)[j] == a;
                    assert(now[j] == a);
                }
                if a == all[i as int] {
                    assert(now[i as int] == a);
                }
            }
        }
        i += 1;
    }
    assert(all.take(i as int) =~= all);
}

/// The addresses among byte strings, in order.
fn read_addresses(addresses: &Vec<Vec<u8>>) -> (r: Vec<Multiaddr>)
    ensures
        address::address_views(r@) == byte_views(addresses@).filter(
            |address: Seq<u8>| address::is_multiaddr(address),
        ),
{
    reveal(Seq::filter);
    let ghost all = byte_views(addresses@);
    let ghost keep = |address: Seq<u8>| address::is_multiaddr(address);
    let mut read: Vec<Multiaddr> = Vec::new();
    assert(address::address_views(read@) =~= all.take(0).filter(keep));
    let mut i: usize = 0;
    while i < addresses.len()
        invariant
            i <= addresses@.len(),
            all == byte_views(addresses@),
            keep == (|address: Seq<u8>| address::is_multiaddr(address)),
            address::address_views(read@) == all.take(i as int).filter(keep),
        decreases addresses@.len() - i,
    {
        let ghost before = address::address_views(read@);
        proof {
            assert(all.take(i + 1).drop_last() =~= all.take(i as int));
            assert(all.take(i + 1).last() == addresses@[i as int]@);
            assert(all.take(i + 1).filter(keep) == (if keep(all[i as int]) {
                before.push(all[i as int])
            } else {
                before
            })) by {
                reveal(Seq::filter);
            }
        }
        if let Some(address) = Multiaddr::from_bytes(copy_bytes(&addresses[i])) {
            read.push(address);
            assert(address::address_views(read@) =~= before.push(address@));
        }
        i += 1;
    }
    assert(all.take(i as int) =~= all);
    read
}

/// The names among texts, each once.
fn read_protocols(protocols: &Vec<String>) -> (r: AssocSet<ProtocolName>)
    ensures
        r@ == text_views(protocols@).to_set(),
{
    let ghost all = text_views(protocols@);
    let mut names: AssocSet<ProtocolName> = AssocSet::new();
    let mut i: usize = 0;
    while i < protocols.len()
        invariant
            i <= protocols@.len(),
            all == text_views(protocols@),
            names@ =~= all.take(i as int).to_set(),
        decreases protocols@.len() - i,
    {
        let _ = names.insert(ProtocolName::from_name(protocols[i].clone()));
        proof {
            let now = all.take(i + 1);
            assert(now =~= all.take(i as int).push(all[i as int]));
            assert forall|a: Seq<char>| #[trigger]
                now.to_set().contains(a) <==> all.take(i as int).to_set().contains(a) || a
                    == all[i as int] by {
                if all.take(i as int).contains(a) {
                    let j = choose|j: int| 0 <= j < i && all.take(i as int)[j] == a;
                    assert(now[j] == a);
                }
                if a == all[i as int] {
                    assert(now[i as int] == a);
                }
            }
        }
        i += 1;
    }
    assert(all.take(i as int) =~= all);
    names
}

/// The message of a peer has been read: what the user learns of it.
pub fn on_identified(peer: PeerId, info: &IdentifyMessage) -> (r: IdentifyEvent)
    ensures
        r@ == identified(peer, info@),
{
    let listen_addresses = read_addresses(&info.listen_addrs);
    let observed_address = match &info.observed_addr {
        Some(bytes) => match Multiaddr::from_bytes(copy_bytes(bytes)) {
            Some(address) => address,
            None => Multiaddr::empty(),
        },
        None => Multiaddr::empty(),
    };
    let supported_protocols = read_protocols(&info.protocols);
    IdentifyEvent::PeerIdentified { peer, supported_protocols, observed_address, listen_addresses }
}

/// What is left to do for the caller.
#[derive(Debug, PartialEq, Eq)]
pub enum IdentifyAction<S> {
    /// Report an event to the user.
    Report(IdentifyEvent),
    /// Send a message over `substream`.
    Send {
        /// Substream.
        substream: S,
        /// Message.
        message: IdentifyMessage,
    },
    /// Read the message of `peer` from `substream`.
    Read {
        /// Peer ID.
        peer: PeerId,
        /// Substream.
        substream: S,
    },
}

/// What happens next in the life of the protocol.
#[derive(Debug, PartialEq, Eq)]
pub enum IdentifyInput<S> {
    /// An event of the transport.
    Transport(TransportEvent<S>),
    /// The message of a peer has been read, or could not be.
    Identified {
        /// Peer ID.
        peer: PeerId,
        /// Message.
        info: Option<IdentifyMessage>,
    },
    /// The transport is gone.
    Exhausted,
}

/// The peers of the protocol.
#[verifier::ext_equal]
pub struct IdentifyView {
    /// Connected peers and their observed addresses.
    pub peers: Map<PeerId, Seq<u8>>,
    /// Pending outbound substreams.
    pub pending_opens: Map<SubstreamId, PeerId>,
}

/// What the protocol tells of the local node.
pub struct LocalView {
    /// Public key.
    pub public: Seq<u8>,
    /// Listen addresses.
    pub listen_addresses: Set<Seq<u8>>,
    /// Supported protocols.
    pub protocols: Seq<Seq<char>>,
}

/// Whether a message identifies the local node to a peer that is observed at an address. The listen
/// addresses come in any order.
pub open spec fn identifies(
    local: LocalView,
    observed: Option<Seq<u8>>,
    message: IdentifyMessageView,
) -> bool {
    &&& message.protocol_version is None
    &&& message.agent_version is None
    &&& message.public_key == Some(local.public)
    &&& message.listen_addrs.no_duplicates()
    &&& message.listen_addrs.to_set() == local.listen_addresses
    &&& message.observed_addr == observed
    &&& message.protocols == local.protocols
}

/// Addresses of peers, by their views.
pub open spec fn peers_view(peers: Map<PeerId, Multiaddr>) -> Map<PeerId, Seq<u8>> {
    peers.map_values(|address: Multiaddr| address@)
}

impl IdentifyView {
    /// The address that a peer is observed at.
    pub open spec fn observed(self, peer: PeerId) -> Option<Seq<u8>> {
        if self.peers.contains_key(peer) {
            Some(self.peers[peer])
        } else {
            None
        }
    }

    /// There is a connection to `peer`.
    pub open spec fn on_connection_established(
        self,
        peer: PeerId,
        address: Seq<u8>,
        opened: Option<SubstreamId>,
    ) -> Self {
        match opened {
            Some(substream) => IdentifyView {
                peers: self.peers.insert(peer, address),
                pending_opens: self.pending_opens.insert(substream, peer),
            },
            None => self,
        }
    }

    /// Whether an input leads from this state to `next` with `actions`. `opened` is the substream
    /// that the transport has started to open to a peer that it has connected to.
    pub open spec fn handles<S>(
        self,
        local: LocalView,
        input: IdentifyInput<S>,
        opened: Option<SubstreamId>,
        next: Self,
        actions: Seq<IdentifyAction<S>>,
    ) -> bool {
        match input {
            IdentifyInput::Transport(TransportEvent::ConnectionEstablished { peer, address }) => {
                &&& next == self.on_connection_established(peer, address@, opened)
                &&& actions.len() == 0
            },
            IdentifyInput::Transport(TransportEvent::ConnectionClosed { peer }) => {
                &&& next == IdentifyView { peers: self.peers.remove(peer), ..self }
                &&& actions.len() == 0
            },
            IdentifyInput::Transport(
                TransportEvent::SubstreamOpened { peer, direction, substream, .. },
            ) => {
                &&& next == self
                &&& actions.len() == 1
                &&& match direction {
                    Direction::Inbound => actions[0] matches IdentifyAction::Send {
                        substream: s,
                        message,
                    } && s == substream && identifies(local, self.observed(peer), message@),
                    Direction::Outbound(_) => actions[0] == IdentifyAction::Read {
                        peer,
                        substream,
                    },
                }
            },
            IdentifyInput::Identified { peer, info } => {
                &&& next == self
                &&& match info {
                    Some(info) => actions.len() == 1 && (actions[0] matches IdentifyAction::Report(
                        event,
                    ) && event@ == identified(peer, info@)),
                    None => actions.len() == 0,
                }
            },
            _ => next == self && actions.len() == 0,
        }
    }
}

/// Identify protocol.
pub struct Identify {
    /// Connected peers and their observed addresses.
    peers: AssocMap<PeerId, Multiaddr>,
    /// Public key of the local node.
    public: PublicKey,
    /// Public addresses.
    listen_addresses: AssocSet<Multiaddr>,
    /// Protocols supported by the local node.
    protocols: Vec<ProtocolName>,
    /// Pending outbound substreams.
    pending_opens: AssocMap<SubstreamId, PeerId>,
}

impl View for Identify {
    type V = IdentifyView;

    closed spec fn view(&self) -> IdentifyView {
        IdentifyView { peers: peers_view(self.peers@), pending_opens: self.pending_opens@ }
    }
}

impl Identify {
    /// What the protocol tells of the local node.
    pub closed spec fn local(self) -> LocalView {
        LocalView {
            public: self.public@,
            listen_addresses: self.listen_addresses@,
            protocols: connection::name_views(self.protocols@),
        }
    }

    /// Create new [`Identify`] protocol. The public key must have been supplied.
    pub fn new(config: Config, listen_addresses: Vec<Multiaddr>) -> (r: Self)
        requires
            config.public is Some,
        ensures
            r.local().public == config.public->Some_0@,
            r.local().listen_addresses == address::address_views(
                config.public_addresses@,
            ).to_set().union(address::address_views(listen_addresses@).to_set()),
            r.local().protocols == connection::name_views(config.protocols@),
            r@ == (IdentifyView { peers: Map::empty(), pending_opens: Map::empty() }),
    {
        let public = match config.public {
            Some(public) => public,
            None => {
                assert(false);
                PublicKey::from_protobuf_encoding(Vec::new())
            },
        };
        let mut all: AssocSet<Multiaddr> = AssocSet::new();
        add_addresses(&mut all, &config.public_addresses);
        add_addresses(&mut all, &listen_addresses);
        let r = Identify {
            peers: AssocMap::new(),
            public,
            listen_addresses: all,
            protocols: config.protocols,
            pending_opens: AssocMap::new(),
        };
        proof {
            assert(r@.peers =~= Map::empty());
            assert(r.local().listen_addresses =~= address::address_views(
                config.public_addresses@,
            ).to_set().union(address::address_views(listen_addresses@).to_set()));
        }
        r
    }

    /// Connection established to remote peer: `opened` is the substream that the transport has
    /// started to open to it.
    pub fn on_connection_established(
        &mut self,
        peer: PeerId,
        address: Multiaddr,
        opened: Result<SubstreamId, Error>,
    ) -> (r: Result<(), Error>)
        ensures
            final(self)@ == old(self)@.on_connection_established(peer, address@, opened.ok()),
            final(self).local() == old(self).local(),
            r == (match opened {
                Ok(_) => Ok(()),
                Err(error) => Err::<(), Error>(error),
            }),
    {
        match opened {
            Ok(substream) => {
                proof {
                    collections::lemma_map_values_insert(
                        self.peers@,
                        |address: Multiaddr| address@,
                        peer,
                        address,
                    );
                }
                let _ = self.pending_opens.insert(substream, peer);
                let _ = self.peers.insert(peer, address);
                Ok(())
            },
            Err(error) => Err(error),
        }
    }

    /// Connection closed to remote peer.
    pub fn on_connection_closed(&mut self, peer: PeerId)
        ensures
            final(self)@ == (IdentifyView {
                peers: old(self)@.peers.remove(peer),
                ..old(self)@
            }),
            final(self).local() == old(self).local(),
    {
        proof {
            collections::lemma_map_values_remove(
                self.peers@,
                |address: Multiaddr| address@,
                peer,
            );
        }
        let _ = self.peers.remove(&peer);
    }

    /// Inbound substream opened: the message for the peer.
    pub fn on_inbound_substream(&self, peer: &PeerId) -> (r: IdentifyMessage)
        ensures
            identifies(self.local(), self@.observed(*peer), r@),
    {
        let observed_addr = match self.peers.get(peer) {
            Some(address) => Some(address.to_vec()),
            None => None,
        };
        let ghost order = self.listen_addresses.order();
        let mut listen_addrs: Vec<Vec<u8>> = Vec::new();
        let count: usize = self.listen_addresses.len();
        let mut i: usize = 0;
        while i < count
            invariant
                i <= count,
                count == order.len(),
                order == self.listen_addresses.order(),
                listen_addrs@.len() == i,
                forall|j: int| 0 <= j < i ==> #[trigger] listen_addrs@[j]@ == order[j],
            decreases count - i,
        {
            listen_addrs.push(self.listen_addresses.at(i).to_vec());
            i += 1;
        }
        let mut protocols: Vec<String> = Vec::new();
        let mut i: usize = 0;
        while i < self.protocols.len()
            invariant
                i <= self.protocols@.len(),
                protocols@.len() == i,
                forall|j: int| 0 <= j < i ==> #[trigger] protocols@[j]@ == self.protocols@[j]@,
            decreases self.protocols@.len() - i,
        {
            protocols.push(self.protocols[i].as_str().to_string());
            i += 1;
        }
        let message = IdentifyMessage {
            protocol_version: None,
            agent_version: None,
            public_key: Some(copy_bytes(self.public.to_protobuf_encoding())),
            listen_addrs,
            observed_addr,
            protocols,
        };
        proof {
            assert(message@.listen_addrs =~= order);
            assert(message@.protocols =~= self.local().protocols);
        }
        message
    }

    /// Handle the next input.
    ///
    /// `opened` is the substream that the transport has started to open to a peer that it has
    /// connected to. After [`IdentifyInput::Exhausted`] there is nothing to wait for.
    pub fn next_event<S>(&mut self, input: IdentifyInput<S>, opened: Result<SubstreamId, Error>) -> (r:
        Vec<IdentifyAction<S>>)
        ensures
            old(self)@.handles(old(self).local(), input, opened.ok(), final(self)@, r@),
            final(self).local() == old(self).local(),
    {
        let mut actions: Vec<IdentifyAction<S>> = Vec::new();
        match input {
            IdentifyInput::Transport(event) => match event {
                TransportEvent::ConnectionEstablished { peer, address } => {
                    let _ = self.on_connection_established(peer, address, opened);
                },
                TransportEvent::ConnectionClosed { peer } => {
                    self.on_connection_closed(peer);
                },
                TransportEvent::SubstreamOpened { peer, direction, substream, .. } => {
                    match direction {
                        Direction::Inbound => {
                            let message = self.on_inbound_substream(&peer);
                            actions.push(IdentifyAction::Send { substream, message });
                        },
                        Direction::Outbound(_) => {
                            actions.push(IdentifyAction::Read { peer, substream });
                        },
                    }
                },
                _ => {},
            },
            IdentifyInput::Identified { peer, info } => {
                if let Some(info) = info {
                    actions.push(IdentifyAction::Report(on_identified(peer, &info)));
                }
            },
            IdentifyInput::Exhausted => {},
        }
        actions
    }
}

proof fn lemma_filter(all: Seq<Seq<u8>>, keep: spec_fn(Seq<u8>) -> bool)
    ensures
        forall|a: Seq<u8>| #[trigger]
            all.filter(keep).contains(a) <==> all.contains(a) && keep(a),
        all.no_duplicates() ==> all.filter(keep).no_duplicates(),
    decreases all.len(),
{
    reveal(Seq::filter);
    if all.len() > 0 {
        let shorter = all.drop_last();
        lemma_filter(shorter, keep);
        assert(all =~= shorter.push(all.last()));
        assert forall|a: Seq<u8>| #[trigger]
            all.contains(a) <==> shorter.contains(a) || a == all.last() by {
            if shorter.contains(a) {
                let i = choose|i: int| 0 <= i < shorter.len() && shorter[i] == a;
                assert(all[i] == a);
            }
            if a == all.last() {
                assert(all[all.len() - 1] == a);
            }
        }
        let kept = shorter.filter(keep);
        assert forall|a: Seq<u8>| #[trigger]
            kept.push(all.last()).contains(a) <==> kept.contains(a) || a == all.last() by {
            if kept.contains(a) {
                let i = choose|i: int| 0 <= i < kept.len() && kept[i] == a;
                assert(kept.push(all.last())[i] == a);
            }
            if a == all.last() {
                assert(kept.push(all.last())[kept.len() as int] == a);
            }
        }
        if all.no_duplicates() {
            assert(!shorter.contains(all.last()));
            assert forall|i: int, j: int|
                0 <= i < kept.len() && 0 <= j < kept.len() && i != j implies kept[i] != kept[j] by {}
            assert forall|i: int| 0 <= i < kept.len() implies #[trigger] kept[i] != all.last() by {
                assert(kept.contains(kept[i]));
            }
        }
    }
}

/// A peer learns what the local node tells: its protocols, its listen addresses, each once, and the
/// address that the peer is observed at. What is no address is left out.
pub proof fn law_peer_identified(
    local: LocalView,
    observed: Seq<u8>,
    message: IdentifyMessageView,
    peer: PeerId,
)
    requires
        identifies(local, Some(observed), message),
        address::is_multiaddr(observed),
    ensures
        ({
            let learnt = identified(peer, message);
            &&& learnt->supported_protocols == local.protocols.to_set()
            &&& learnt->observed_address == observed
            &&& learnt->listen_addresses.no_duplicates()
            &&& forall|a: Seq<u8>| #[trigger]
                learnt->listen_addresses.contains(a) <==> local.listen_addresses.contains(a)
                    && address::is_multiaddr(a)
        }),
{
    let keep = |address: Seq<u8>| address::is_multiaddr(address);
    let all = message.listen_addrs;
    let learnt = identified(peer, message)->listen_addresses;
    assert(learnt == all.filter(keep));
    lemma_filter(all, keep);
    assert forall|a: Seq<u8>| #[trigger]
        learnt.contains(a) <==> local.listen_addresses.contains(a) && address::is_multiaddr(
            a,
        ) by {
        assert(all.to_set().contains(a) <==> local.listen_addresses.contains(a));
    }
}

/// A peer that connects and asks is told of the local node: its public key, its protocols, its
/// listen addresses, each once, and the address that the peer was observed at.
pub proof fn law_peer_told_of_local_node<S>(
    before: IdentifyView,
    local: LocalView,
    peer: PeerId,
    address: Multiaddr,
    id: SubstreamId,
    connected: IdentifyView,
    first: Seq<IdentifyAction<S>>,
    event: TransportEvent<S>,
    substream: S,
    after: IdentifyView,
    actions: Seq<IdentifyAction<S>>,
)
    requires
        before.handles(
            local,
            IdentifyInput::Transport(TransportEvent::ConnectionEstablished { peer, address }),
            Some(id),
            connected,
            first,
        ),
        event matches TransportEvent::SubstreamOpened { peer: p, direction, substream: s, .. } && p
            == peer && direction == Direction::Inbound && s == substream,
        connected.handles(local, IdentifyInput::Transport(event), None, after, actions),
    ensures
        first.len() == 0,
        actions.len() == 1,
        actions[0] matches IdentifyAction::Send { substream: s, message } && s == substream && (
        message.public_key matches Some(key) && key@ == local.public) && (message.observed_addr
            matches Some(observed) && observed@ == address@) && message.protocols@.len()
            == local.protocols.len() && (forall|i: int|
            0 <= i < local.protocols.len() ==> (#[trigger] message.protocols@[i])@
                == local.protocols[i]) && (forall|a: Seq<u8>|
            local.listen_addresses.contains(a) <==> #[trigger] byte_views(
                message.listen_addrs@,
            ).contains(a)) && byte_views(message.listen_addrs@).no_duplicates(),
        after == connected,
{
    let message = actions[0]->Send_message;
    assert(message@.protocols.len() == message.protocols@.len());
    assert forall|i: int| 0 <= i < local.protocols.len() implies (
    #[trigger] message.protocols@[i])@ == local.protocols[i] by {
        assert(message@.protocols[i] == message.protocols@[i]@);
    }
    assert forall|a: Seq<u8>|
        local.listen_addresses.contains(a) <==> #[trigger] byte_views(
            message.listen_addrs@,
        ).contains(a) by {
        assert(message@.listen_addrs.to_set().contains(a) <==> message@.listen_addrs.contains(a));
    }
}

/// A peer that is not connected is told of the local node too, but of no address of its own.
pub proof fn law_unknown_peer_told_no_address<S>(
    before: IdentifyView,
    local: LocalView,
    peer: PeerId,
    closed: IdentifyView,
    first: Seq<IdentifyAction<S>>,
    event: TransportEvent<S>,
    substream: S,
    after: IdentifyView,
    actions: Seq<IdentifyAction<S>>,
)
    requires
        before.handles(
            local,
            IdentifyInput::Transport(TransportEvent::ConnectionClosed { peer }),
            None,
            closed,
            first,
        ),
        event matches TransportEvent::SubstreamOpened { peer: p, direction, substream: s, .. } && p
            == peer && direction == Direction::Inbound && s == substream,
        closed.handles(local, IdentifyInput::Transport(event), None, after, actions),
    ensures
        first.len() == 0,
        !closed.peers.contains_key(peer),
        actions.len() == 1,
        actions[0] matches IdentifyAction::Send { substream: s, message } && s == substream
            && message.observed_addr is None && (message.public_key matches Some(key) && key@
            == local.public),
{
}

/// The message of a connected peer is read from the substream that was opened to it, and the user
/// learns what it says: the protocols, the listen addresses that are addresses, in order, and the
/// address that the local node was observed at.
pub proof fn law_message_reported<S>(
    before: IdentifyView,
    local: LocalView,
    peer: PeerId,
    event: TransportEvent<S>,
    id: SubstreamId,
    substream: S,
    reading: IdentifyView,
    first: Seq<IdentifyAction<S>>,
    info: IdentifyMessage,
    after: IdentifyView,
    actions: Seq<IdentifyAction<S>>,
)
    requires
        event matches TransportEvent::SubstreamOpened { peer: p, direction, substream: s, .. } && p
            == peer && direction == Direction::Outbound(id) && s == substream,
        before.handles(local, IdentifyInput::Transport(event), None, reading, first),
        reading.handles(
            local,
            IdentifyInput::<S>::Identified { peer, info: Some(info) },
            None,
            after,
            actions,
        ),
    ensures
        first =~= seq![IdentifyAction::Read { peer, substream }],
        actions.len() == 1,
        actions[0] matches IdentifyAction::Report(
            IdentifyEvent::PeerIdentified {
                peer: p,
                supported_protocols,
                observed_address,
                listen_addresses,
            },
        ) && p == peer && (forall|i: int|
            0 <= i < info.protocols@.len() ==> supported_protocols@.contains(
                (#[trigger] info.protocols@[i])@,
            )) && (forall|name: Seq<char>| #[trigger]
            supported_protocols@.contains(name) ==> exists|i: int|
                0 <= i < info.protocols@.len() && (#[trigger] info.protocols@[i])@ == name) && (
        info.observed_addr is Some && address::is_multiaddr(info.observed_addr->Some_0@)
            ==> observed_address@ == info.observed_addr->Some_0@) && (forall|i: int|
            0 <= i < info.listen_addrs@.len() && address::is_multiaddr(
                (#[trigger] info.listen_addrs@[i])@,
            ) ==> address::address_views(listen_addresses@).contains(info.listen_addrs@[i]@)) && (
        forall|a: Seq<u8>| #[trigger]
            address::address_views(listen_addresses@).contains(a) ==> address::is_multiaddr(a)
                && byte_views(info.listen_addrs@).contains(a)),
        after == before,
{
    let event = actions[0]->Report_0;
    let keep = |address: Seq<u8>| address::is_multiaddr(address);
    let sent = byte_views(info.listen_addrs@);
    let names = text_views(info.protocols@);
    lemma_filter(sent, keep);
    let learnt = address::address_views(event->listen_addresses@);
    assert(learnt == sent.filter(keep));
    let protocols = event->supported_protocols@;
    assert(protocols == names.to_set());
    assert forall|i: int| 0 <= i < info.protocols@.len() implies protocols.contains(
        (#[trigger] info.protocols@[i])@,
    ) by {
        assert(names[i] == info.protocols@[i]@);
        assert(names.to_set().contains(names[i]));
    }
    assert forall|name: Seq<char>| #[trigger] protocols.contains(name) implies exists|i: int|
        0 <= i < info.protocols@.len() && (#[trigger] info.protocols@[i])@ == name by {
        assert(names.contains(name));
        let i = choose|i: int| 0 <= i < names.len() && names[i] == name;
        assert(info.protocols@[i]@ == name);
    }
    assert forall|i: int|
        0 <= i < info.listen_addrs@.len() && address::is_multiaddr(
            (#[trigger] info.listen_addrs@[i])@,
        ) implies learnt.contains(info.listen_addrs@[i]@) by {
        assert(sent[i] == info.listen_addrs@[i]@);
        assert(sent.contains(sent[i]) && keep(sent[i]));
    }
    assert forall|a: Seq<u8>| #[trigger] learnt.contains(a) implies address::is_multiaddr(a)
        && sent.contains(a) by {
        assert(keep(a));
    }
}

/// Nothing is reported of a peer whose message could not be read, and nothing is done when a
/// connection comes or goes.
pub proof fn law_nothing_reported<S>(
    before: IdentifyView,
    local: LocalView,
    input: IdentifyInput<S>,
    opened: Option<SubstreamId>,
    after: IdentifyView,
    actions: Seq<IdentifyAction<S>>,
)
    requires
        before.handles(local, input, opened, after, actions),
        match input {
            IdentifyInput::Transport(event) => !(event is SubstreamOpened),
            IdentifyInput::Identified { info, .. } => info is None,
            IdentifyInput::Exhausted => true,
        },
    ensures
        actions.len() == 0,
        input is Identified || input is Exhausted ==> after == before,
        (input matches IdentifyInput::Transport(
            TransportEvent::ConnectionEstablished { peer, address },
        ) && opened is Some) ==> after.peers
            == before.peers.insert(
            input->Transport_0->ConnectionEstablished_peer,
            input->Transport_0->ConnectionEstablished_address@,
        ) && after.pending_opens == before.pending_opens.insert(
            opened->Some_0,
            input->Transport_0->ConnectionEstablished_peer,
        ),
{
}

} // verus!
