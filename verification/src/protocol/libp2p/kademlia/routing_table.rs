//! Kademlia routing table implementation.

use super::bucket;
use super::bucket::{KBucket, KBucketEntry, Slot};
use super::types;
use super::types::{ConnectionType, Distance, KademliaPeer, KademliaPeerView, Key};
use super::u256;
use super::u256::U256;
use crate::address;
use crate::address::Multiaddr;
use crate::peer_id::PeerId;
use crate::random::{random_bytes, random_in_range};
use vstd::arithmetic::power2;
use vstd::prelude::*;

verus! {

/// Number of k-buckets.
pub const NUM_BUCKETS: usize = 256;

/// Whether the bucket with index `i` is for peers at distance `d`.
pub open spec fn in_bucket(d: nat, i: int) -> bool {
    0 <= i < NUM_BUCKETS && power2::pow2(i as nat) <= d < power2::pow2((i + 1) as nat)
}

/// The index of the bucket for peers at distance `d`.
pub open spec fn bucket_of(d: nat) -> int {
    choose|i: int| in_bucket(d, i)
}

proof fn lemma_bucket_unique(d: nat, i: int, j: int)
    requires
        in_bucket(d, i),
        in_bucket(d, j),
    ensures
        i == j,
{
    if i < j {
        if i + 1 < j {
            power2::lemma_pow2_strictly_increases((i + 1) as nat, j as nat);
        }
    } else if j < i {
        if j + 1 < i {
            power2::lemma_pow2_strictly_increases((j + 1) as nat, i as nat);
        }
    }
}

/// A (type-safe) index into a `KBucketsTable`, i.e. a non-negative integer in the
/// interval `[0, NUM_BUCKETS)`.
#[derive(Clone, Copy, Debug, PartialEq, Eq)]
pub struct BucketIndex {
    index: usize,
}

/// The last `quot` bytes of `bytes`, with `leading` before them and zeros before that.
pub open spec fn placed(quot: usize, bytes: Seq<u8>, leading: u8) -> Seq<u8> {
    Seq::new(
        32,
        |j: int|
            if j < 31 - quot {
                0
            } else if j == 31 - quot {
                leading
            } else {
                bytes[j]
            },
    )
}

impl BucketIndex {
    #[verifier::type_invariant]
    spec fn wf(self) -> bool {
        self.index < NUM_BUCKETS
    }

    /// The index.
    pub closed spec fn spec_get(&self) -> usize {
        self.index
    }

    /// Creates a new `BucketIndex` for a `Distance`.
    ///
    /// The given distance is interpreted as the distance from a `local_key` of
    /// a `KBucketsTable`. If the distance is zero, `None` is returned, in
    /// recognition of the fact that the only key with distance `0` to a
    /// `local_key` is the `local_key` itself, which does not belong in any
    /// bucket.
    pub fn new(d: &Distance) -> (r: Option<BucketIndex>)
        ensures
            match r {
                Some(index) => {
                    &&& in_bucket(d.value(), index.spec_get() as int)
                    &&& index.spec_get() == bucket_of(d.value())
                },
                None => d.value() == 0,
            },
    {
        match d.ilog2() {
            Some(i) => {
                proof {
                    assert(in_bucket(d.value(), i as int));
                    lemma_bucket_unique(d.value(), i as int, bucket_of(d.value()));
                }
                Some(BucketIndex { index: i as usize })
            },
            None => None,
        }
    }

    /// The index with the given number, if there is a bucket for it.
    pub fn from_number(index: usize) -> (r: Option<BucketIndex>)
        ensures
            match r {
                Some(r) => index < NUM_BUCKETS && r.spec_get() == index,
                None => index >= NUM_BUCKETS,
            },
    {
        if index < NUM_BUCKETS {
            Some(BucketIndex { index })
        } else {
            None
        }
    }

    /// Gets the index value as an unsigned integer.
    pub fn get(&self) -> (r: usize)
        ensures
            r == self.spec_get(),
            r < NUM_BUCKETS,
    {
        proof {
            use_type_invariant(self);
        }
        self.index
    }

    /// Returns the minimum inclusive and maximum inclusive [`Distance`]
    /// included in the bucket for this index.
    pub fn range(&self) -> (r: (Distance, Distance))
        ensures
            self.spec_get() < NUM_BUCKETS,
            r.0.value() == power2::pow2(self.spec_get() as nat),
            r.1.value() == power2::pow2((self.spec_get() + 1) as nat) - 1,
    {
        proof {
            use_type_invariant(self);
        }
        let min = Distance(U256::power_of_two(self.index as u32));
        if self.index == 255 {
            (min, Distance(U256::max_value()))
        } else {
            (min, Distance(U256::low_bits(self.index as u32)))
        }
    }

    /// The distance whose lowest bytes are those of `bytes` and whose leading byte is `leading`.
    pub fn distance_with(&self, bytes: &[u8; 32], leading: u8) -> (r: Distance)
        requires
            power2::pow2((self.spec_get() % 8) as nat) <= leading < power2::pow2(
                (self.spec_get() % 8 + 1) as nat,
            ),
        ensures
            r.value() == u256::be_nat(placed(self.spec_get() / 8, bytes@, leading)),
            in_bucket(r.value(), self.spec_get() as int),
    {
        proof {
            use_type_invariant(self);
        }
        let mut all: [u8; 32] = [0u8; 32];
        let quot: usize = self.index / 8;
        let mut i: usize = 0;
        while i < quot
            invariant
                i <= quot,
                quot < 32,
                forall|j: int| 0 <= j < 32 - i ==> all@[j] == 0,
                forall|j: int| 32 - i <= j < 32 ==> all@[j] == bytes@[j],
            decreases quot - i,
        {
            all[31 - i] = bytes[31 - i];
            i += 1;
        }
        all[31 - quot] = leading;
        proof {
            let q = quot as nat;
            let rem = (self.index % 8) as nat;
            assert(all@ =~= placed(quot, bytes@, leading));
            u256::lemma_leading_byte(all@, q, rem);
            assert(8 * q + rem == self.index);
        }
        Distance(U256::from_be_bytes(&all))
    }

    /// Generates a random distance that falls into the bucket for this index.
    pub fn rand_distance(&self) -> (r: Distance)
        ensures
            in_bucket(r.value(), self.spec_get() as int),
    {
        proof {
            use_type_invariant(self);
            power2::lemma2_to64();
        }
        let rem: usize = self.index % 8;
        let lower: u16 = match rem {
            0 => 1,
            1 => 2,
            2 => 4,
            3 => 8,
            4 => 16,
            5 => 32,
            6 => 64,
            _ => 128,
        };
        let upper: u16 = 2 * lower;
        let bytes = random_bytes();
        let leading: u16 = random_in_range(lower, upper);
        assert(lower == power2::pow2(rem as nat));
        assert(upper == power2::pow2((rem + 1) as nat));
        self.distance_with(&bytes, leading as u8)
    }
}

/// The buckets split the distances up: every distance but zero belongs to one bucket, and it lies
/// within the range of that bucket.
pub proof fn law_buckets_partition_distances(d: nat, i: int, j: int)
    requires
        in_bucket(d, i),
    ensures
        d != 0,
        in_bucket(d, j) ==> i == j,
        bucket_of(d) == i,
{
    power2::lemma_pow2_pos(i as nat);
    lemma_bucket_unique(d, i, bucket_of(d));
    if in_bucket(d, j) {
        lemma_bucket_unique(d, i, j);
    }
}

/// The routing table: a bucket for every magnitude that the distance to the local node can have.
pub struct RoutingTable {
    /// Local key.
    local_key: Key<PeerId>,
    /// K-buckets.
    buckets: Vec<KBucket>,
}

/// The peers of all buckets, one bucket after the other.
pub open spec fn all_peers(buckets: Seq<Seq<KademliaPeerView>>) -> Seq<KademliaPeerView>
    decreases buckets.len(),
{
    if buckets.len() == 0 {
        Seq::empty()
    } else {
        all_peers(buckets.drop_last()) + buckets.last()
    }
}

/// The distance of a peer to a place, as a number.
pub open spec fn distance_to(target: U256, peer: KademliaPeerView) -> nat {
    types::xor_distance(target, peer.key.bytes).value()
}

/// Peers from the shortest distance to the longest.
pub open spec fn ascending(target: U256, peers: Seq<KademliaPeerView>) -> bool {
    forall|i: int, j: int|
        0 <= i < j < peers.len() ==> distance_to(target, #[trigger] peers[i]) <= distance_to(
            target,
            #[trigger] peers[j],
        )
}

/// Whether `closest` are the `limit` peers of `all` closest to `target`, from the closest on: they
/// are the first of all peers in the order of their distances.
pub open spec fn is_closest(
    all: Seq<KademliaPeerView>,
    target: U256,
    limit: nat,
    closest: Seq<KademliaPeerView>,
) -> bool {
    exists|order: Seq<KademliaPeerView>| #[trigger]
        ranks(all, target, order) && closest == order.take(
            if limit < order.len() {
                limit as int
            } else {
                order.len() as int
            },
        )
}

/// Whether `order` are the peers `all`, in the order of their distances to `target`.
pub open spec fn ranks(
    all: Seq<KademliaPeerView>,
    target: U256,
    order: Seq<KademliaPeerView>,
) -> bool {
    order.to_multiset() == all.to_multiset() && ascending(target, order)
}

/// The bucket that a place belongs to in the table of `local_key`, unless it is the local one.
pub open spec fn index_from(local_key: Key<PeerId>, place: U256) -> Option<int> {
    let d = types::xor_distance(local_key.bytes, place).value();
    if d == 0 {
        None
    } else {
        Some(bucket_of(d))
    }
}

/// What becomes of the buckets when a known peer is added.
pub open spec fn known_peer_added(
    local_key: Key<PeerId>,
    before: Seq<Seq<KademliaPeerView>>,
    peer: PeerId,
    addresses: Seq<Seq<u8>>,
    connection: ConnectionType,
    after: Seq<Seq<KademliaPeerView>>,
) -> bool {
    match index_from(local_key, types::place_of(peer.spec_bytes())) {
        None => after == before,
        Some(index) => {
            &&& 0 <= index < before.len()
            &&& after == before.update(index, after[index])
            &&& with_known_peer(before[index], peer, addresses, connection, after[index])
        },
    }
}

/// What becomes of the buckets when the connection of a peer changes. A peer that is not in the
/// table, and for which there is room, leaves a slot that has been set up.
pub open spec fn connection_set(
    local_key: Key<PeerId>,
    before: Seq<Seq<KademliaPeerView>>,
    peer: PeerId,
    connection: ConnectionType,
    after: Seq<Seq<KademliaPeerView>>,
) -> bool {
    match index_from(local_key, types::place_of(peer.spec_bytes())) {
        None => after == before,
        Some(index) => {
            let nodes = before[index];
            &&& 0 <= index < before.len()
            &&& after == before.update(index, after[index])
            &&& match bucket::slot_for(nodes, peer) {
                Slot::Occupied(i) => after[index] == nodes.update(
                    i,
                    KademliaPeerView { connection, ..nodes[i] },
                ),
                Slot::Fresh => set_up(nodes, after[index]),
                _ => after[index] == nodes,
            }
        },
    }
}

/// Whether a bucket has one more slot, which has been set up.
pub open spec fn set_up(nodes: Seq<KademliaPeerView>, after: Seq<KademliaPeerView>) -> bool {
    &&& after.len() == nodes.len() + 1
    &&& after.drop_last() == nodes
    &&& bucket::is_placeholder(after.last())
}

/// What is found for a peer that a record is to be put to, and what becomes of the buckets: the
/// peer itself, or the one whose slot it would take if that one has addresses.
pub open spec fn looked_up(
    local_key: Key<PeerId>,
    before: Seq<Seq<KademliaPeerView>>,
    peer: PeerId,
    after: Seq<Seq<KademliaPeerView>>,
    found: Option<KademliaPeerView>,
) -> bool {
    match index_from(local_key, types::place_of(peer.spec_bytes())) {
        None => after == before && found is None,
        Some(index) => {
            let nodes = before[index];
            &&& 0 <= index < before.len()
            &&& after == before.update(index, after[index])
            &&& match bucket::slot_for(nodes, peer) {
                Slot::Occupied(i) => after[index] == nodes && found == Some(nodes[i]),
                Slot::Fresh => set_up(nodes, after[index]) && found is None,
                Slot::Evict(i) => {
                    &&& after[index] == nodes
                    &&& found == if nodes[i].addresses.len() > 0 {
                        Some(nodes[i])
                    } else {
                        None
                    }
                },
                Slot::Full => after[index] == nodes && found is None,
            }
        },
    }
}

/// What becomes of a bucket when a known peer is added to it.
pub open spec fn with_known_peer(
    nodes: Seq<KademliaPeerView>,
    peer: PeerId,
    addresses: Seq<Seq<u8>>,
    connection: ConnectionType,
    after: Seq<KademliaPeerView>,
) -> bool {
    match bucket::slot_for(nodes, peer) {
        Slot::Occupied(i) => after == if addresses.len() > 0 {
            nodes.update(i, KademliaPeerView { addresses, ..nodes[i] })
        } else {
            nodes
        },
        Slot::Fresh => {
            &&& after.len() == nodes.len() + 1
            &&& after.drop_last() == nodes
            &&& if addresses.len() > 0 {
                is_known_peer(after.last(), peer, addresses, connection)
            } else {
                bucket::is_placeholder(after.last())
            }
        },
        Slot::Evict(i) => if addresses.len() > 0 {
            &&& after.len() == nodes.len()
            &&& after == nodes.update(i, after[i])
            &&& is_known_peer(after[i], peer, addresses, connection)
        } else {
            after == nodes
        },
        Slot::Full => after == nodes,
    }
}

/// Whether a node is a peer with the given addresses and connection.
pub open spec fn is_known_peer(
    node: KademliaPeerView,
    peer: PeerId,
    addresses: Seq<Seq<u8>>,
    connection: ConnectionType,
) -> bool {
    &&& node.peer == peer
    &&& node.key.is_of_peer(peer)
    &&& node.addresses == addresses
    &&& node.connection == connection
}

impl RoutingTable {
    /// The table has a bucket for every index.
    pub closed spec fn wf(self) -> bool {
        self.buckets@.len() == NUM_BUCKETS
    }

    /// The local key.
    pub closed spec fn spec_local_key(self) -> Key<PeerId> {
        self.local_key
    }

    /// The nodes of each bucket.
    pub closed spec fn buckets(self) -> Seq<Seq<KademliaPeerView>> {
        Seq::new(self.buckets@.len(), |i: int| self.buckets@[i]@)
    }

    /// The bucket that a key belongs to, unless it is the local one.
    pub open spec fn index_of(self, place: U256) -> Option<int> {
        index_from(self.spec_local_key(), place)
    }

    /// A table has as many buckets as there are indices.
    pub proof fn lemma_bucket_count(self)
        requires
            self.wf(),
        ensures
            self.buckets().len() == NUM_BUCKETS,
    {
    }

    /// Create new [`RoutingTable`].
    pub fn new(local_key: Key<PeerId>) -> (r: Self)
        ensures
            r.wf(),
            r.spec_local_key() == local_key,
            r.buckets() == Seq::new(NUM_BUCKETS as nat, |i: int| Seq::<KademliaPeerView>::empty()),
    {
        let mut buckets: Vec<KBucket> = Vec::new();
        let mut i: usize = 0;
        while i < NUM_BUCKETS
            invariant
                i <= NUM_BUCKETS,
                buckets.len() == i,
                forall|j: int| 0 <= j < i ==> (#[trigger] buckets@[j])@ == Seq::<
                    KademliaPeerView,
                >::empty(),
            decreases NUM_BUCKETS - i,
        {
            buckets.push(KBucket::new());
            i += 1;
        }
        let r = RoutingTable { local_key, buckets };
        assert(r.buckets() =~= Seq::new(
            NUM_BUCKETS as nat,
            |i: int| Seq::<KademliaPeerView>::empty(),
        ));
        r
    }

    /// Returns the local key.
    pub fn local_key(&self) -> (r: &Key<PeerId>)
        ensures
            *r == self.spec_local_key(),
    {
        &self.local_key
    }

    /// Get an entry for `peer` into a k-bucket.
    pub fn entry<'a>(&'a mut self, key: Key<PeerId>) -> (r: KBucketEntry<'a>)
        requires
            old(self).wf(),
        ensures
            final(self).wf(),
            final(self).spec_local_key() == old(self).spec_local_key(),
            match old(self).index_of(key.bytes) {
                None => r is LocalNode && final(self).buckets() == old(self).buckets(),
                Some(index) => {
                    let nodes = old(self).buckets()[index];
                    &&& 0 <= index < NUM_BUCKETS
                    &&& bucket::slot_valid(nodes, bucket::slot_for(nodes, key.preimage))
                    &&& match (r, bucket::slot_for(nodes, key.preimage)) {
                        (KBucketEntry::Occupied(node), Slot::Occupied(i)) => {
                            &&& node@ == nodes[i]
                            &&& final(self).buckets() == old(self).buckets().update(
                                index,
                                nodes.update(i, final(node)@),
                            )
                        },
                        (KBucketEntry::Vacant(node), Slot::Fresh) => {
                            &&& bucket::is_placeholder(node@)
                            &&& final(self).buckets() == old(self).buckets().update(
                                index,
                                nodes.push(final(node)@),
                            )
                        },
                        (KBucketEntry::Vacant(node), Slot::Evict(i)) => {
                            &&& node@ == nodes[i]
                            &&& final(self).buckets() == old(self).buckets().update(
                                index,
                                nodes.update(i, final(node)@),
                            )
                        },
                        (KBucketEntry::NoSlot, Slot::Full) => final(self).buckets() == old(
                            self,
                        ).buckets(),
                        _ => false,
                    }
                },
            },
    {
        let distance = self.local_key.distance(&key);
        match BucketIndex::new(&distance) {
            None => KBucketEntry::LocalNode,
            Some(index) => {
                proof {
                    power2::lemma_pow2_pos(index.spec_get() as nat);
                }
                let i: usize = index.get();
                self.buckets[i].entry(key)
            },
        }
    }

    /// Add known peer to [`RoutingTable`].
    ///
    /// In order to bootstrap the lookup process, the routing table must be aware of at least one
    /// node and of its addresses. The insert operation is ignored without addresses, for the local
    /// node, and where there is no slot for the peer.
    pub fn add_known_peer(
        &mut self,
        peer: PeerId,
        addresses: Vec<Multiaddr>,
        connection: ConnectionType,
    )
        requires
            old(self).wf(),
        ensures
            final(self).wf(),
            final(self).spec_local_key() == old(self).spec_local_key(),
            known_peer_added(
                old(self).spec_local_key(),
                old(self).buckets(),
                peer,
                address::address_views(addresses@),
                connection,
                final(self).buckets(),
            ),
    {
        let key = Key::from_peer(peer);
        let ghost before = self.buckets();
        proof {
            self.lemma_bucket_count();
        }
        let empty = addresses.len() == 0;
        match self.entry(key) {
            KBucketEntry::Occupied(entry) => {
                if !empty {
                    entry.addresses = addresses;
                }
            },
            KBucketEntry::Vacant(entry) => {
                if !empty {
                    KBucketEntry::Vacant(entry).insert(
                        KademliaPeer::new(peer, addresses, connection),
                    );
                }
            },
            KBucketEntry::LocalNode => {},
            KBucketEntry::NoSlot => {},
        }
        proof {
            match old(self).index_of(key.bytes) {
                None => {},
                Some(index) => {
                    let nodes = before[index];
                    let after = self.buckets()[index];
                    assert(self.buckets() =~= before.update(index, after));
                    match bucket::slot_for(nodes, peer) {
                        Slot::Fresh => {
                            assert(after.drop_last() =~= nodes);
                        },
                        Slot::Occupied(i) => {
                            assert(nodes.update(i, nodes[i]) =~= nodes);
                        },
                        Slot::Evict(i) => {
                            assert(after =~= nodes.update(i, after[i]));
                            assert(nodes.update(i, nodes[i]) =~= nodes);
                        },
                        Slot::Full => {},
                    }
                },
            }
        }
    }

    /// Notes what connection there is to `peer`, if it is in the table.
    pub fn set_connection(&mut self, peer: PeerId, connection: ConnectionType)
        requires
            old(self).wf(),
        ensures
            final(self).wf(),
            final(self).spec_local_key() == old(self).spec_local_key(),
            connection_set(
                old(self).spec_local_key(),
                old(self).buckets(),
                peer,
                connection,
                final(self).buckets(),
            ),
    {
        let key = Key::from_peer(peer);
        let ghost before = self.buckets();
        proof {
            self.lemma_bucket_count();
        }
        match self.entry(key) {
            KBucketEntry::Occupied(entry) => {
                entry.connection = connection;
            },
            _ => {},
        }
        proof {
            match old(self).index_of(key.bytes) {
                None => {},
                Some(index) => {
                    let nodes = before[index];
                    let after = self.buckets()[index];
                    assert(self.buckets() =~= before.update(index, after));
                    match bucket::slot_for(nodes, peer) {
                        Slot::Fresh => {
                            assert(after.drop_last() =~= nodes);
                        },
                        Slot::Evict(i) => {
                            assert(nodes.update(i, nodes[i]) =~= nodes);
                        },
                        _ => {},
                    }
                },
            }
        }
    }

    /// The peer that a record for `peer` is put to, if there is one.
    pub fn look_up(&mut self, peer: PeerId) -> (r: Option<KademliaPeer>)
        requires
            old(self).wf(),
        ensures
            final(self).wf(),
            final(self).spec_local_key() == old(self).spec_local_key(),
            looked_up(
                old(self).spec_local_key(),
                old(self).buckets(),
                peer,
                final(self).buckets(),
                types::optional_peer_view(r),
            ),
    {
        let key = Key::from_peer(peer);
        let ghost before = self.buckets();
        proof {
            self.lemma_bucket_count();
        }
        let r = match self.entry(key) {
            KBucketEntry::Occupied(entry) => Some(entry.clone()),
            KBucketEntry::Vacant(entry) => if entry.addresses.len() > 0 {
                Some(entry.clone())
            } else {
                None
            },
            _ => None,
        };
        proof {
            match old(self).index_of(key.bytes) {
                None => {},
                Some(index) => {
                    let nodes = before[index];
                    let after = self.buckets()[index];
                    assert(self.buckets() =~= before.update(index, after));
                    match bucket::slot_for(nodes, peer) {
                        Slot::Fresh => {
                            assert(after.drop_last() =~= nodes);
                        },
                        Slot::Occupied(i) => {
                            assert(nodes.update(i, nodes[i]) =~= nodes);
                        },
                        Slot::Evict(i) => {
                            assert(nodes.update(i, nodes[i]) =~= nodes);
                        },
                        Slot::Full => {},
                    }
                },
            }
        }
        r
    }

    /// Get `limit` closests peers to `target` from the k-buckets.
    pub fn closest<K>(&self, target: &Key<K>, limit: usize) -> (r: Vec<KademliaPeer>)
        ensures
            is_closest(
                all_peers(self.buckets()),
                target.bytes,
                limit as nat,
                types::peer_views(r@),
            ),
    {
        let mut sorted: Vec<KademliaPeer> = Vec::new();
        let mut b: usize = 0;
        let ghost buckets = self.buckets();
        assert(buckets.take(0) =~= Seq::empty());
        assert(types::peer_views(sorted@) =~= all_peers(buckets.take(0)));
        while b < self.buckets.len()
            invariant
                b <= self.buckets.len(),
                buckets == self.buckets(),
                buckets.len() == self.buckets.len(),
                ranks(all_peers(buckets.take(b as int)), target.bytes, types::peer_views(sorted@)),
            decreases self.buckets.len() - b,
        {
            let ghost held = all_peers(buckets.take(b as int));
            let ghost nodes = buckets[b as int];
            let mut n: usize = 0;
            assert(held + nodes.take(0) =~= held);
            while n < self.buckets[b].len()
                invariant
                    b < self.buckets.len(),
                    buckets == self.buckets(),
                    n <= nodes.len(),
                    nodes == buckets[b as int],
                    ranks(held + nodes.take(n as int), target.bytes, types::peer_views(sorted@)),
                decreases nodes.len() - n,
            {
                let node = self.buckets[b].node(n).clone();
                proof {
                    assert(node@ == nodes[n as int]);
                    assert(held + nodes.take(n + 1) =~= (held + nodes.take(n as int)).push(node@));
                }
                insert_sorted(
                    &mut sorted,
                    &target.bytes,
                    node,
                    Ghost(held + nodes.take(n as int)),
                );
                n += 1;
            }
            proof {
                assert(nodes.take(n as int) =~= nodes);
                assert(buckets.take(b + 1).drop_last() =~= buckets.take(b as int));
                assert(buckets.take(b + 1).last() == nodes);
            }
            b += 1;
        }
        assert(buckets.take(b as int) =~= buckets);
        let ghost order = types::peer_views(sorted@);
        sorted.truncate(limit);
        assert(types::peer_views(sorted@) =~= order.take(
            if limit < order.len() {
                limit as int
            } else {
                order.len() as int
            },
        ));
        sorted
    }
}

/// Puts `node` into its place among peers that are in order.
fn insert_sorted(
    sorted: &mut Vec<KademliaPeer>,
    target: &U256,
    node: KademliaPeer,
    Ghost(all): Ghost<Seq<KademliaPeerView>>,
)
    requires
        ranks(all, *target, types::peer_views(old(sorted)@)),
    ensures
        ranks(all.push(node@), *target, types::peer_views(final(sorted)@)),
{
    let ghost before = types::peer_views(sorted@);
    let distance = Distance(target.xor(&node.key.bytes));
    let mut i: usize = 0;
    while i < sorted.len() && !distance.less_than(&Distance(target.xor(&sorted[i].key.bytes)))
        invariant
            i <= sorted.len(),
            distance == types::xor_distance(*target, node.key.bytes),
            before == types::peer_views(sorted@),
            forall|j: int|
                0 <= j < i ==> distance_to(*target, #[trigger] before[j]) <= distance.value(),
        decreases sorted.len() - i,
    {
        assert(before[i as int] == sorted@[i as int]@);
        i += 1;
    }
    let ghost view = node@;
    proof {
        assert forall|j: int| i <= j < before.len() implies distance.value() <= distance_to(
            *target,
            #[trigger] before[j],
        ) by {
            assert(before[i as int] == sorted@[i as int]@);
            if j > i {
                assert(distance_to(*target, before[i as int]) <= distance_to(*target, before[j]));
            }
        }
    }
    sorted.insert(i, node);
    proof {
        let after = before.insert(i as int, view);
        assert(types::peer_views(sorted@) =~= after);
        lemma_insert_multiset(before, i as int, view);
        broadcast use vstd::seq_lib::group_to_multiset_ensures;

        assert(all.push(view).to_multiset() =~= all.to_multiset().insert(view));
        assert forall|k: int| 0 <= k < after.len() implies #[trigger] after[k] == (if k < i {
            before[k]
        } else if k == i {
            view
        } else {
            before[k - 1]
        }) by {}
        assert forall|a: int, b: int| 0 <= a < b < after.len() implies distance_to(
            *target,
            #[trigger] after[a],
        ) <= distance_to(*target, #[trigger] after[b]) by {
            let a2 = if a < i { a } else { a - 1 };
            let b2 = if b < i { b } else { b - 1 };
            if a != i && b != i {
                assert(distance_to(*target, before[a2]) <= distance_to(*target, before[b2]));
            } else if a == i {
                assert(distance.value() <= distance_to(*target, before[b2]));
            } else {
                assert(distance_to(*target, before[a2]) <= distance.value());
            }
        }
    }
}

proof fn lemma_insert_multiset<A>(s: Seq<A>, i: int, x: A)
    requires
        0 <= i <= s.len(),
    ensures
        s.insert(i, x).to_multiset() == s.to_multiset().insert(x),
{
    broadcast use vstd::seq_lib::group_to_multiset_ensures;

    let a = s.take(i);
    let b = s.skip(i);
    assert(s =~= a + b);
    assert(s.insert(i, x) =~= a.push(x) + b);
    vstd::seq_lib::lemma_multiset_commutative(a, b);
    vstd::seq_lib::lemma_multiset_commutative(a.push(x), b);
    assert(s.insert(i, x).to_multiset() =~= s.to_multiset().insert(x));
}

/// What is returned as closest is at most `limit` peers, from the closest on, and no peer of the
/// table that was left out is closer than one that was not.
pub proof fn law_closest(
    all: Seq<KademliaPeerView>,
    target: U256,
    limit: nat,
    closest: Seq<KademliaPeerView>,
)
    requires
        is_closest(all, target, limit, closest),
    ensures
        closest.len() == if limit < all.len() {
            limit
        } else {
            all.len()
        },
        ascending(target, closest),
        closest.to_multiset().subset_of(all.to_multiset()),
        forall|kept: KademliaPeerView, left: KademliaPeerView|
            closest.contains(kept) && #[trigger] all.to_multiset().sub(
                closest.to_multiset(),
            ).contains(left) ==> #[trigger] distance_to(target, kept) <= distance_to(target, left),
{
    broadcast use vstd::seq_lib::group_to_multiset_ensures;

    let order = choose|order: Seq<KademliaPeerView>| #[trigger]
        ranks(all, target, order) && closest == order.take(
            if limit < order.len() {
                limit as int
            } else {
                order.len() as int
            },
        );
    let n = closest.len() as int;
    let rest = order.skip(n);
    assert(order.to_multiset().len() == order.len());
    assert(all.to_multiset().len() == all.len());
    assert(order =~= closest + rest);
    vstd::seq_lib::lemma_multiset_commutative(closest, rest);
    assert(all.to_multiset().sub(closest.to_multiset()) =~= rest.to_multiset());
    assert forall|i: int, j: int| 0 <= i < j < closest.len() implies distance_to(
        target,
        #[trigger] closest[i],
    ) <= distance_to(target, #[trigger] closest[j]) by {
        assert(distance_to(target, order[i]) <= distance_to(target, order[j]));
    }
    assert forall|kept: KademliaPeerView, left: KademliaPeerView|
        closest.contains(kept) && #[trigger] all.to_multiset().sub(
            closest.to_multiset(),
        ).contains(left) implies #[trigger] distance_to(target, kept) <= distance_to(
        target,
        left,
    ) by {
        assert(rest.contains(left));
        let i = choose|i: int| 0 <= i < closest.len() && closest[i] == kept;
        let j = choose|j: int| 0 <= j < rest.len() && rest[j] == left;
        assert(distance_to(target, order[i]) <= distance_to(target, order[n + j]));
    }
}

} // verus!
