//! The messages of the protocol, field by field.

use crate::types::copy_bytes;
use vstd::prelude::*;

verus! {

/// Type of a `PUT_VALUE` message.
pub const PUT_VALUE: i32 = 0;

/// Type of a `GET_VALUE` message.
pub const GET_VALUE: i32 = 1;

/// Type of a `GET_PROVIDERS` message.
pub const GET_PROVIDERS: i32 = 3;

/// Type of a `FIND_NODE` message.
pub const FIND_NODE: i32 = 4;

/// A record on the wire.
#[derive(Debug, PartialEq, Eq)]
pub struct Record {
    /// Key.
    pub key: Vec<u8>,
    /// Value.
    pub value: Vec<u8>,
}

/// A peer on the wire.
#[derive(Debug, PartialEq, Eq)]
pub struct Peer {
    /// Bytes of the peer ID.
    pub id: Vec<u8>,
    /// Bytes of the addresses.
    pub addrs: Vec<Vec<u8>>,
    /// Connection type.
    pub connection: i32,
}

/// A message on the wire.
#[derive(Debug, PartialEq, Eq)]
pub struct Message {
    /// Type.
    pub message_type: i32,
    /// Cluster level.
    pub cluster_level_raw: i32,
    /// Key.
    pub key: Vec<u8>,
    /// Record.
    pub record: Option<Record>,
    /// Peers that are closer to the key.
    pub closer_peers: Vec<Peer>,
}

/// A record on the wire, with bytes by their views.
pub struct RecordView {
    /// Key.
    pub key: Seq<u8>,
    /// Value.
    pub value: Seq<u8>,
}

/// A peer on the wire, with bytes by their views.
pub struct PeerView {
    /// Bytes of the peer ID.
    pub id: Seq<u8>,
    /// Bytes of the addresses.
    pub addrs: Seq<Seq<u8>>,
    /// Connection type.
    pub connection: i32,
}

/// A message on the wire, with bytes by their views.
pub struct MessageView {
    /// Type.
    pub message_type: i32,
    /// Cluster level.
    pub cluster_level_raw: i32,
    /// Key.
    pub key: Seq<u8>,
    /// Record.
    pub record: Option<RecordView>,
    /// Peers that are closer to the key.
    pub closer_peers: Seq<PeerView>,
}

impl View for Record {
    type V = RecordView;

    open spec fn view(&self) -> RecordView {
        RecordView { key: self.key@, value: self.value@ }
    }
}

impl View for Peer {
    type V = PeerView;

    open spec fn view(&self) -> PeerView {
        PeerView {
            id: self.id@,
            addrs: Seq::new(self.addrs@.len(), |i: int| self.addrs@[i]@),
            connection: self.connection,
        }
    }
}

impl View for Message {
    type V = MessageView;

    open spec fn view(&self) -> MessageView {
        MessageView {
            message_type: self.message_type,
            cluster_level_raw: self.cluster_level_raw,
            key: self.key@,
            record: match self.record {
                Some(record) => Some(record@),
                None => None,
            },
            closer_peers: Seq::new(self.closer_peers@.len(), |i: int| self.closer_peers@[i]@),
        }
    }
}

impl Clone for Record {
    fn clone(&self) -> (r: Self)
        ensures
            r@ == self@,
    {
        Record { key: copy_bytes(&self.key), value: copy_bytes(&self.value) }
    }
}

impl Clone for Peer {
    fn clone(&self) -> (r: Self)
        ensures
            r@ == self@,
    {
        let mut addrs: Vec<Vec<u8>> = Vec::new();
        let mut i: usize = 0;
        while i < self.addrs.len()
            invariant
                i <= self.addrs.len(),
                addrs.len() == i,
                forall|j: int| 0 <= j < i ==> (#[trigger] addrs@[j])@ == self.addrs@[j]@,
            decreases self.addrs.len() - i,
        {
            addrs.push(copy_bytes(&self.addrs[i]));
            i += 1;
        }
        let r = Peer { id: copy_bytes(&self.id), addrs, connection: self.connection };
        assert(r@.addrs =~= self@.addrs);
        r
    }
}

impl Clone for Message {
    fn clone(&self) -> (r: Self)
        ensures
            r@ == self@,
    {
        let mut closer_peers: Vec<Peer> = Vec::new();
        let mut i: usize = 0;
        while i < self.closer_peers.len()
            invariant
                i <= self.closer_peers.len(),
                closer_peers.len() == i,
                forall|j: int|
                    0 <= j < i ==> (#[trigger] closer_peers@[j])@ == self.closer_peers@[j]@,
            decreases self.closer_peers.len() - i,
        {
            closer_peers.push(self.closer_peers[i].clone());
            i += 1;
        }
        let record = match &self.record {
            Some(record) => Some(record.clone()),
            None => None,
        };
        let r = Message {
            message_type: self.message_type,
            cluster_level_raw: self.cluster_level_raw,
            key: copy_bytes(&self.key),
            record,
            closer_peers,
        };
        assert(r@.closer_peers =~= self@.closer_peers);
        r
    }
}

} // verus!
