//! Kademlia k-bucket implementation.

use super::types;
use super::types::{ConnectionType, KademliaPeer, KademliaPeerView, Key};
use crate::collections::MapKey;
use crate::peer_id::PeerId;
use vstd::prelude::*;

verus! {

/// The number of peers that a k-bucket holds.
pub const K_VALUE: usize = 20;

/// K-bucket entry.
#[derive(Debug, PartialEq, Eq)]
pub enum KBucketEntry<'a> {
    /// Entry points to local node.
    LocalNode,
    /// Occupied entry to a connected node.
    Occupied(&'a mut KademliaPeer),
    /// Vacant entry.
    Vacant(&'a mut KademliaPeer),
    /// Entry not found and any present entry cannot be replaced.
    NoSlot,
}

impl<'a> KBucketEntry<'a> {
    /// Insert new entry into the entry if possible.
    pub fn insert(self, new: KademliaPeer)
        ensures
            match self {
                KBucketEntry::Vacant(slot) => *final(slot) == new,
                KBucketEntry::Occupied(slot) => *final(slot) == *slot,
                _ => true,
            },
    {
        match self {
            KBucketEntry::Vacant(old) => {
                *old = new;
            },
            _ => {},
        }
    }
}

/// Whether a node may be replaced by another one.
pub open spec fn evictable(node: KademliaPeerView) -> bool {
    node.connection is NotConnected || node.connection is CannotConnect
}

/// The position of the first node that is `peer`, or the number of nodes.
pub open spec fn find_peer(nodes: Seq<KademliaPeerView>, peer: PeerId) -> int
    decreases nodes.len(),
{
    if nodes.len() == 0 || nodes[0].peer == peer {
        0
    } else {
        1 + find_peer(nodes.skip(1), peer)
    }
}

/// The position of the first node that may be replaced, or the number of nodes.
pub open spec fn find_evictable(nodes: Seq<KademliaPeerView>) -> int
    decreases nodes.len(),
{
    if nodes.len() == 0 || evictable(nodes[0]) {
        0
    } else {
        1 + find_evictable(nodes.skip(1))
    }
}

/// What a bucket has for a peer.
pub enum Slot {
    /// The peer is at a position.
    Occupied(int),
    /// There is room for another node.
    Fresh,
    /// The node at a position may be replaced.
    Evict(int),
    /// There is no room.
    Full,
}

/// What a bucket has for `peer`.
pub open spec fn slot_for(nodes: Seq<KademliaPeerView>, peer: PeerId) -> Slot {
    if find_peer(nodes, peer) < nodes.len() {
        Slot::Occupied(find_peer(nodes, peer))
    } else if nodes.len() < K_VALUE {
        Slot::Fresh
    } else if find_evictable(nodes) < nodes.len() {
        Slot::Evict(find_evictable(nodes))
    } else {
        Slot::Full
    }
}

/// Whether a position that is offered is one of the bucket.
pub open spec fn slot_valid(nodes: Seq<KademliaPeerView>, slot: Slot) -> bool {
    match slot {
        Slot::Occupied(i) => 0 <= i < nodes.len(),
        Slot::Evict(i) => 0 <= i < nodes.len(),
        _ => true,
    }
}

/// What stands in a slot that has been set up: some peer without addresses and without connection.
pub open spec fn is_placeholder(node: KademliaPeerView) -> bool {
    node.addresses.len() == 0 && node.connection == ConnectionType::NotConnected
}

/// Kademlia k-bucket.
pub struct KBucket {
    nodes: Vec<KademliaPeer>,
}

impl View for KBucket {
    type V = Seq<KademliaPeerView>;

    closed spec fn view(&self) -> Seq<KademliaPeerView> {
        types::peer_views(self.nodes@)
    }
}

impl KBucket {
    /// Create new [`KBucket`].
    pub fn new() -> (r: Self)
        ensures
            r@ == Seq::<KademliaPeerView>::empty(),
    {
        let r = KBucket { nodes: Vec::new() };
        assert(r@ =~= Seq::<KademliaPeerView>::empty());
        r
    }

    fn find(&self, peer: &PeerId) -> (r: usize)
        ensures
            r == find_peer(self@, *peer),
            r <= self@.len(),
    {
        let mut i: usize = 0;
        assert(self@.skip(0) =~= self@);
        while i < self.nodes.len()
            invariant
                i <= self.nodes.len(),
                find_peer(self@, *peer) == i + find_peer(self@.skip(i as int), *peer),
            decreases self.nodes.len() - i,
        {
            assert(self@.skip(i as int)[0] == self@[i as int]);
            if self.nodes[i].peer.same(peer) {
                return i;
            }
            assert(self@.skip(i as int).skip(1) =~= self@.skip(i + 1));
            i += 1;
        }
        i
    }

    fn find_slot(&self) -> (r: usize)
        ensures
            r == find_evictable(self@),
            r <= self@.len(),
    {
        let mut i: usize = 0;
        assert(self@.skip(0) =~= self@);
        while i < self.nodes.len()
            invariant
                i <= self.nodes.len(),
                find_evictable(self@) == i + find_evictable(self@.skip(i as int)),
            decreases self.nodes.len() - i,
        {
            assert(self@.skip(i as int)[0] == self@[i as int]);
            match self.nodes[i].connection {
                ConnectionType::NotConnected => {
                    return i;
                },
                ConnectionType::CannotConnect => {
                    return i;
                },
                _ => {},
            }
            assert(self@.skip(i as int).skip(1) =~= self@.skip(i + 1));
            i += 1;
        }
        i
    }

    /// Get entry into the bucket.
    ///
    /// A peer that is in the bucket is found. For one that is not, a free slot is set up, or the
    /// slot of the first node that is not connected is offered.
    pub fn entry<'a>(&'a mut self, key: Key<PeerId>) -> (r: KBucketEntry<'a>)
        ensures
            match (r, slot_for(old(self)@, key.preimage)) {
                (KBucketEntry::Occupied(node), Slot::Occupied(i)) => {
                    &&& node@ == old(self)@[i]
                    &&& final(self)@ == old(self)@.update(i, final(node)@)
                },
                (KBucketEntry::Vacant(node), Slot::Fresh) => {
                    &&& is_placeholder(node@)
                    &&& final(self)@ == old(self)@.push(final(node)@)
                },
                (KBucketEntry::Vacant(node), Slot::Evict(i)) => {
                    &&& node@ == old(self)@[i]
                    &&& final(self)@ == old(self)@.update(i, final(node)@)
                },
                (KBucketEntry::NoSlot, Slot::Full) => final(self)@ == old(self)@,
                _ => false,
            },
            slot_valid(old(self)@, slot_for(old(self)@, key.preimage)),
    {
        let i: usize = self.find(&key.preimage);
        if i < self.nodes.len() {
            return KBucketEntry::Occupied(&mut self.nodes[i]);
        }
        if self.nodes.len() < K_VALUE {
            self.nodes.push(
                KademliaPeer::new(PeerId::random(), Vec::new(), ConnectionType::NotConnected),
            );
            let len: usize = self.nodes.len() - 1;
            return KBucketEntry::Vacant(&mut self.nodes[len]);
        }
        let i: usize = self.find_slot();
        if i < self.nodes.len() {
            return KBucketEntry::Vacant(&mut self.nodes[i]);
        }
        KBucketEntry::NoSlot
    }

    /// The number of nodes.
    pub fn len(&self) -> (r: usize)
        ensures
            r == self@.len(),
    {
        self.nodes.len()
    }

    /// The node at position `i`.
    pub fn node(&self, i: usize) -> (r: &KademliaPeer)
        requires
            i < self@.len(),
        ensures
            r@ == self@[i as int],
    {
        &self.nodes[i]
    }
}

/// A bucket never holds more nodes than it may.
pub proof fn law_bucket_bounded(nodes: Seq<KademliaPeerView>, peer: PeerId, new: KademliaPeerView)
    requires
        nodes.len() <= K_VALUE,
    ensures
        match slot_for(nodes, peer) {
            Slot::Occupied(i) => nodes.update(i, new).len() <= K_VALUE,
            Slot::Fresh => nodes.push(new).len() <= K_VALUE,
            Slot::Evict(i) => nodes.update(i, new).len() <= K_VALUE,
            Slot::Full => true,
        },
{
    lemma_find_peer(nodes, peer);
    lemma_find_evictable(nodes);
}

/// The first node that may be replaced is found.
pub proof fn lemma_find_evictable(nodes: Seq<KademliaPeerView>)
    ensures
        0 <= find_evictable(nodes) <= nodes.len(),
        find_evictable(nodes) < nodes.len() ==> evictable(nodes[find_evictable(nodes)]),
        forall|i: int| 0 <= i < find_evictable(nodes) ==> !evictable(#[trigger] nodes[i]),
    decreases nodes.len(),
{
    if nodes.len() > 0 && !evictable(nodes[0]) {
        let rest = nodes.skip(1);
        lemma_find_evictable(rest);
        let p = find_evictable(nodes);
        assert forall|i: int| 0 <= i < p implies !evictable(#[trigger] nodes[i]) by {
            if i > 0 {
                assert(nodes[i] == rest[i - 1]);
            }
        }
        if p < nodes.len() {
            assert(nodes[p] == rest[p - 1]);
        }
    }
}

/// The first node that is a peer is found.
pub proof fn lemma_find_peer(nodes: Seq<KademliaPeerView>, peer: PeerId)
    ensures
        0 <= find_peer(nodes, peer) <= nodes.len(),
        find_peer(nodes, peer) < nodes.len() ==> nodes[find_peer(nodes, peer)].peer == peer,
        forall|i: int| 0 <= i < find_peer(nodes, peer) ==> (#[trigger] nodes[i]).peer != peer,
    decreases nodes.len(),
{
    if nodes.len() > 0 && nodes[0].peer != peer {
        let rest = nodes.skip(1);
        lemma_find_peer(rest, peer);
        let p = find_peer(nodes, peer);
        assert forall|i: int| 0 <= i < p implies (#[trigger] nodes[i]).peer != peer by {
            if i > 0 {
                assert(nodes[i] == rest[i - 1]);
            }
        }
        if p < nodes.len() {
            assert(nodes[p] == rest[p - 1]);
        }
    }
}

/// A node that is connected, or has been of late, is never replaced by another one; and as long as
/// there is room nobody is.
pub proof fn law_connected_nodes_not_evicted(nodes: Seq<KademliaPeerView>, peer: PeerId)
    ensures
        slot_for(nodes, peer) matches Slot::Evict(i) ==> {
            &&& 0 <= i < nodes.len()
            &&& evictable(nodes[i])
            &&& !(nodes[i].connection is Connected)
            &&& !(nodes[i].connection is CanConnect)
            &&& nodes.len() >= K_VALUE
        },
{
    lemma_find_evictable(nodes);
}

/// A peer is refused exactly when the bucket is full of nodes that may not be replaced, and it is
/// not one of them.
pub proof fn law_refused_when_full(nodes: Seq<KademliaPeerView>, peer: PeerId)
    ensures
        slot_for(nodes, peer) is Full <==> {
            &&& nodes.len() >= K_VALUE
            &&& forall|i: int|
                0 <= i < nodes.len() ==> !evictable(#[trigger] nodes[i]) && nodes[i].peer != peer
        },
{
    lemma_find_evictable(nodes);
    lemma_find_peer(nodes, peer);
}

/// A peer that is in the bucket is found, and one that is put into a vacant slot is in the bucket
/// from then on.
pub proof fn law_inserted_peer_found(nodes: Seq<KademliaPeerView>, new: KademliaPeerView)
    ensures
        slot_for(nodes, new.peer) is Fresh ==> slot_for(nodes.push(new), new.peer) == Slot::Occupied(
            nodes.len() as int,
        ),
        slot_for(nodes, new.peer) matches Slot::Evict(i) ==> slot_for(nodes.update(i, new), new.peer)
            == Slot::Occupied(i),
{
    lemma_find_peer(nodes, new.peer);
    lemma_find_evictable(nodes);
    match slot_for(nodes, new.peer) {
        Slot::Fresh => {
            let after = nodes.push(new);
            lemma_find_peer(after, new.peer);
            let p = find_peer(after, new.peer);
            assert(after[nodes.len() as int] == new);
            if p < nodes.len() {
                assert(after[p] == nodes[p]);
            }
        },
        Slot::Evict(i) => {
            let after = nodes.update(i, new);
            lemma_find_peer(after, new.peer);
            let p = find_peer(after, new.peer);
            assert(after[i] == new);
            if p != i {
                assert(after[p] == nodes[p]);
            }
        },
        _ => {},
    }
}

} // verus!
