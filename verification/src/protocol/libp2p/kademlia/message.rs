//! Kademlia messages.

use super::record::{Record, RecordKey, RecordView};
use super::schema;
use super::schema::{FIND_NODE, GET_PROVIDERS, GET_VALUE, PUT_VALUE};
use super::types;
use super::types::{KademliaPeer, KademliaPeerView};
use crate::peer_id::PeerId;
use crate::types::copy_bytes;
use vstd::prelude::*;

verus! {

/// The cluster level that every message carries.
pub const CLUSTER_LEVEL: i32 = 10;

/// Kademlia message.
#[allow(inconsistent_fields)]
#[derive(Debug, PartialEq, Eq)]
pub enum KademliaMessage {
    /// `FIND_NODE` message: a request for the peers closest to `target`, or the response to one.
    FindNode {
        /// Bytes that the search is for.
        target: Vec<u8>,
        /// Found peers.
        peers: Vec<KademliaPeer>,
    },
    /// Kademlia `PUT_VALUE` message.
    PutValue {
        /// Record.
        record: Record,
    },
    /// `GET_VALUE` message: a request for the record under `key`, or the response to one.
    GetRecord {
        /// Key of the record.
        key: Option<RecordKey>,
        /// Record, if it is known.
        record: Option<Record>,
        /// Peers that are closer to the key.
        peers: Vec<KademliaPeer>,
    },
}

/// Kademlia message, with its parts by their views.
#[allow(inconsistent_fields)]
pub enum KademliaMessageView {
    /// `FIND_NODE` message.
    FindNode {
        /// Bytes that the search is for.
        target: Seq<u8>,
        /// Found peers.
        peers: Seq<KademliaPeerView>,
    },
    /// `PUT_VALUE` message.
    PutValue {
        /// Record.
        record: RecordView,
    },
    /// `GET_VALUE` message.
    GetRecord {
        /// Key of the record.
        key: Option<Seq<u8>>,
        /// Record, if it is known.
        record: Option<RecordView>,
        /// Peers that are closer to the key.
        peers: Seq<KademliaPeerView>,
    },
}

impl View for KademliaMessage {
    type V = KademliaMessageView;

    open spec fn view(&self) -> KademliaMessageView {
        match *self {
            KademliaMessage::FindNode { target, peers } => KademliaMessageView::FindNode {
                target: target@,
                peers: types::peer_views(peers@),
            },
            KademliaMessage::PutValue { record } => KademliaMessageView::PutValue {
                record: record@,
            },
            KademliaMessage::GetRecord { key, record, peers } => KademliaMessageView::GetRecord {
                key: match key {
                    Some(key) => Some(key@),
                    None => None,
                },
                record: match record {
                    Some(record) => Some(record@),
                    None => None,
                },
                peers: types::peer_views(peers@),
            },
        }
    }
}

/// A message without a record and without peers.
pub open spec fn plain_message(message_type: i32, key: Seq<u8>) -> schema::MessageView {
    schema::MessageView {
        message_type,
        cluster_level_raw: CLUSTER_LEVEL,
        key,
        record: None,
        closer_peers: Seq::empty(),
    }
}

/// The message that asks for the peers closest to `key`.
pub open spec fn find_node_message(key: Seq<u8>) -> schema::MessageView {
    plain_message(FIND_NODE, key)
}

/// The message that asks for a record to be stored.
pub open spec fn put_value_message(record: RecordView) -> schema::MessageView {
    schema::MessageView {
        record: Some(wire_record(record)),
        ..plain_message(PUT_VALUE, record.key)
    }
}

/// The message that asks for the record under `key`.
pub open spec fn get_record_message(key: Seq<u8>) -> schema::MessageView {
    plain_message(GET_VALUE, key)
}

/// The message that asks for the providers of `key`.
pub open spec fn get_providers_message(key: Seq<u8>) -> schema::MessageView {
    plain_message(GET_PROVIDERS, key)
}

/// A record as it stands on the wire.
pub open spec fn wire_record(record: RecordView) -> schema::RecordView {
    schema::RecordView { key: record.key, value: record.value }
}

/// Peers as they stand on the wire.
pub open spec fn wire_peers(peers: Seq<KademliaPeerView>) -> Seq<schema::PeerView> {
    Seq::new(peers.len(), |i: int| types::wire_peer(peers[i]))
}

/// The message that answers a search for `key` with `peers`.
pub open spec fn find_node_response_message(
    key: Seq<u8>,
    peers: Seq<KademliaPeerView>,
) -> schema::MessageView {
    schema::MessageView { closer_peers: wire_peers(peers), ..plain_message(FIND_NODE, key) }
}

/// The message that answers a request for the record under `key`.
pub open spec fn get_value_response_message(
    key: Seq<u8>,
    peers: Seq<KademliaPeerView>,
    record: Option<RecordView>,
) -> schema::MessageView {
    schema::MessageView {
        record: match record {
            Some(record) => Some(wire_record(record)),
            None => None,
        },
        closer_peers: wire_peers(peers),
        ..plain_message(GET_VALUE, key)
    }
}

/// The peer that a valid one on the wire stands for.
pub open spec fn parsed_peer(wire: schema::PeerView) -> KademliaPeerView {
    choose|peer: KademliaPeerView| types::peer_parses(wire, peer)
}

/// The peers that those on the wire stand for; invalid ones are left out.
pub open spec fn parsed_peers(wire: Seq<schema::PeerView>) -> Seq<KademliaPeerView>
    decreases wire.len(),
{
    if wire.len() == 0 {
        Seq::empty()
    } else {
        let before = parsed_peers(wire.drop_last());
        if types::peer_valid(wire.last()) {
            before.push(parsed_peer(wire.last()))
        } else {
            before
        }
    }
}

/// The record that one on the wire stands for.
pub open spec fn parsed_record(wire: schema::RecordView) -> RecordView {
    RecordView { key: wire.key, value: wire.value, publisher: None, expires: None }
}

/// What a message on the wire stands for.
pub open spec fn parsed_message(wire: schema::MessageView) -> Option<KademliaMessageView> {
    if wire.message_type == FIND_NODE {
        Some(
            KademliaMessageView::FindNode {
                target: wire.key,
                peers: parsed_peers(wire.closer_peers),
            },
        )
    } else if wire.message_type == PUT_VALUE {
        match wire.record {
            Some(record) => Some(KademliaMessageView::PutValue { record: parsed_record(record) }),
            None => None,
        }
    } else if wire.message_type == GET_VALUE {
        Some(
            KademliaMessageView::GetRecord {
                key: if wire.key.len() == 0 {
                    None
                } else {
                    Some(wire.key)
                },
                record: match wire.record {
                    Some(record) => Some(parsed_record(record)),
                    None => None,
                },
                peers: parsed_peers(wire.closer_peers),
            },
        )
    } else {
        None
    }
}

proof fn lemma_parsed_unique(wire: schema::PeerView, peer: KademliaPeerView)
    requires
        types::peer_parses(wire, peer),
    ensures
        parsed_peer(wire) == peer,
{
    let other = parsed_peer(wire);
    assert(types::peer_parses(wire, other));
    PeerId::lemma_extensional(peer.peer, other.peer);
    types::law_connection_numbers(peer.connection, other.connection);
}

fn parse_peers(wire: &Vec<schema::Peer>) -> (r: Vec<KademliaPeer>)
    ensures
        types::peer_views(r@) == parsed_peers(Seq::new(wire@.len(), |i: int| wire@[i]@)),
{
    let ghost views = Seq::new(wire@.len(), |i: int| wire@[i]@);
    let mut r: Vec<KademliaPeer> = Vec::new();
    let mut i: usize = 0;
    assert(types::peer_views(r@) =~= parsed_peers(views.take(0)));
    while i < wire.len()
        invariant
            i <= wire.len(),
            views == Seq::new(wire@.len(), |i: int| wire@[i]@),
            types::peer_views(r@) == parsed_peers(views.take(i as int)),
        decreases wire.len() - i,
    {
        let ghost before = types::peer_views(r@);
        proof {
            assert(views.take(i + 1).drop_last() =~= views.take(i as int));
            assert(views.take(i + 1).last() == wire@[i as int]@);
        }
        match KademliaPeer::try_from_schema(&wire[i]) {
            Ok(peer) => {
                proof {
                    lemma_parsed_unique(wire@[i as int]@, peer@);
                }
                r.push(peer);
                assert(types::peer_views(r@) =~= before.push(peer@));
            },
            Err(_) => {},
        }
        i += 1;
    }
    assert(views.take(i as int) =~= views);
    r
}

fn write_peers(peers: &Vec<KademliaPeer>) -> (r: Vec<schema::Peer>)
    ensures
        Seq::new(r@.len(), |i: int| r@[i]@) == wire_peers(types::peer_views(peers@)),
{
    let mut r: Vec<schema::Peer> = Vec::new();
    let mut i: usize = 0;
    while i < peers.len()
        invariant
            i <= peers.len(),
            r.len() == i,
            forall|j: int| 0 <= j < i ==> (#[trigger] r@[j])@ == types::wire_peer(peers@[j]@),
        decreases peers.len() - i,
    {
        r.push(peers[i].to_schema());
        i += 1;
    }
    assert(Seq::new(r@.len(), |i: int| r@[i]@) =~= wire_peers(types::peer_views(peers@)));
    r
}

impl KademliaMessage {
    /// Whether the message can be the response to a query for peers.
    pub fn is_response(&self) -> (r: bool)
        ensures
            r == (self@ is FindNode),
    {
        match self {
            KademliaMessage::FindNode { .. } => true,
            _ => false,
        }
    }

    fn plain(message_type: i32, key: Vec<u8>) -> (r: schema::Message)
        ensures
            r@ == plain_message(message_type, key@),
    {
        let r = schema::Message {
            message_type,
            cluster_level_raw: CLUSTER_LEVEL,
            key,
            record: None,
            closer_peers: Vec::new(),
        };
        assert(r@.closer_peers =~= Seq::empty());
        r
    }

    /// Create `FIND_NODE` message for `key`.
    pub fn find_node(key: Vec<u8>) -> (r: schema::Message)
        ensures
            r@ == find_node_message(key@),
    {
        KademliaMessage::plain(FIND_NODE, key)
    }

    /// Create `PUT_VALUE` message for `record`.
    pub fn put_value(record: &Record) -> (r: schema::Message)
        ensures
            r@ == put_value_message(record@),
    {
        let mut r = KademliaMessage::plain(PUT_VALUE, record.key.to_vec());
        r.record = Some(
            schema::Record { key: record.key.to_vec(), value: copy_bytes(&record.value) },
        );
        r
    }

    /// Create `GET_VALUE` message for `key`.
    pub fn get_record(key: &RecordKey) -> (r: schema::Message)
        ensures
            r@ == get_record_message(key@),
    {
        KademliaMessage::plain(GET_VALUE, key.to_vec())
    }

    /// Create `GET_PROVIDERS` message for `key`.
    pub fn get_providers_request(key: &RecordKey) -> (r: schema::Message)
        ensures
            r@ == get_providers_message(key@),
    {
        KademliaMessage::plain(GET_PROVIDERS, key.to_vec())
    }

    /// Create `FIND_NODE` response.
    pub fn find_node_response(key: Vec<u8>, peers: &Vec<KademliaPeer>) -> (r: schema::Message)
        ensures
            r@ == find_node_response_message(key@, types::peer_views(peers@)),
    {
        let mut r = KademliaMessage::plain(FIND_NODE, key);
        r.closer_peers = write_peers(peers);
        r
    }

    /// Create `GET_VALUE` response.
    pub fn get_value_response(
        key: &RecordKey,
        peers: &Vec<KademliaPeer>,
        record: Option<&Record>,
    ) -> (r: schema::Message)
        ensures
            r@ == get_value_response_message(
                key@,
                types::peer_views(peers@),
                match record {
                    Some(record) => Some(record@),
                    None => None,
                },
            ),
    {
        let mut r = KademliaMessage::plain(GET_VALUE, key.to_vec());
        r.record = match record {
            Some(record) => Some(
                schema::Record { key: record.key.to_vec(), value: copy_bytes(&record.value) },
            ),
            None => None,
        };
        r.closer_peers = write_peers(peers);
        r
    }

    /// Get [`KademliaMessage`] from a decoded message.
    pub fn from_message(message: schema::Message) -> (r: Option<Self>)
        ensures
            match r {
                Some(parsed) => parsed_message(message@) == Some(parsed@),
                None => parsed_message(message@) is None,
            },
    {
        if message.message_type == FIND_NODE {
            let peers = parse_peers(&message.closer_peers);
            Some(KademliaMessage::FindNode { target: message.key, peers })
        } else if message.message_type == PUT_VALUE {
            match message.record {
                Some(record) => Some(
                    KademliaMessage::PutValue {
                        record: Record::new(RecordKey::from_bytes(record.key), record.value),
                    },
                ),
                None => None,
            }
        } else if message.message_type == GET_VALUE {
            let peers = parse_peers(&message.closer_peers);
            let key = if message.key.len() == 0 {
                None
            } else {
                Some(RecordKey::from_bytes(message.key))
            };
            let record = match message.record {
                Some(record) => Some(
                    Record::new(RecordKey::from_bytes(record.key), record.value),
                ),
                None => None,
            };
            Some(KademliaMessage::GetRecord { key, record, peers })
        } else {
            None
        }
    }
}

/// Whether peers come back from the wire as they were.
pub open spec fn peers_sound(peers: Seq<KademliaPeerView>) -> bool {
    forall|i: int|
        0 <= i < peers.len() ==> {
            let peer = #[trigger] peers[i];
            &&& peer.peer.wf()
            &&& peer.key.is_of_peer(peer.peer)
            &&& forall|j: int|
                0 <= j < peer.addresses.len() ==> crate::address::is_multiaddr(
                    #[trigger] peer.addresses[j],
                )
        }
}

proof fn lemma_peers_round_trip(peers: Seq<KademliaPeerView>)
    requires
        peers_sound(peers),
    ensures
        parsed_peers(wire_peers(peers)) == peers,
    decreases peers.len(),
{
    let wire = wire_peers(peers);
    if peers.len() > 0 {
        let before = peers.drop_last();
        assert(peers_sound(before)) by {
            assert forall|i: int| 0 <= i < before.len() implies {
                let peer = #[trigger] before[i];
                &&& peer.peer.wf()
                &&& peer.key.is_of_peer(peer.peer)
                &&& forall|j: int|
                    0 <= j < peer.addresses.len() ==> crate::address::is_multiaddr(
                        #[trigger] peer.addresses[j],
                    )
            } by {
                assert(before[i] == peers[i]);
            }
        }
        lemma_peers_round_trip(before);
        assert(wire.drop_last() =~= wire_peers(before));
        let last = peers.last();
        assert(last == peers[peers.len() - 1]);
        types::lemma_wire_peer_parses(last);
        lemma_parsed_unique(wire.last(), last);
        assert(before.push(last) =~= peers);
    } else {
        assert(parsed_peers(wire) =~= peers);
    }
}

/// A search is read as it was written.
pub proof fn law_find_node_round_trip(key: Seq<u8>)
    ensures
        parsed_message(find_node_message(key)) == Some(
            KademliaMessageView::FindNode { target: key, peers: Seq::empty() },
        ),
{
    assert(parsed_peers(Seq::empty()) =~= Seq::empty());
}

/// The answer to a search is read as it was written, where its peers are sound.
pub proof fn law_find_node_response_round_trip(key: Seq<u8>, peers: Seq<KademliaPeerView>)
    requires
        peers_sound(peers),
    ensures
        parsed_message(find_node_response_message(key, peers)) == Some(
            KademliaMessageView::FindNode { target: key, peers },
        ),
{
    lemma_peers_round_trip(peers);
}

/// A record that is put is read with its key and its value; publisher and expiration do not
/// travel.
pub proof fn law_put_value_round_trip(record: RecordView)
    ensures
        parsed_message(put_value_message(record)) == Some(
            KademliaMessageView::PutValue {
                record: RecordView { publisher: None, expires: None, ..record },
            },
        ),
{
}

/// The answer to a request for a record is read as it was written, where its peers are sound and
/// its key is not empty; publisher and expiration do not travel.
pub proof fn law_get_value_response_round_trip(
    key: Seq<u8>,
    peers: Seq<KademliaPeerView>,
    record: Option<RecordView>,
)
    requires
        peers_sound(peers),
        key.len() > 0,
    ensures
        parsed_message(get_value_response_message(key, peers, record)) == Some(
            KademliaMessageView::GetRecord {
                key: Some(key),
                record: match record {
                    Some(record) => Some(RecordView { publisher: None, expires: None, ..record }),
                    None => None,
                },
                peers,
            },
        ),
{
    lemma_peers_round_trip(peers);
}

} // verus!
