//! Keys, distances and peers.

use super::record::RecordKey;
use super::schema;
use super::u256;
use super::u256::U256;
use crate::address;
use crate::address::{copy_addresses, Multiaddr};
use crate::peer_id;
use crate::peer_id::{digest, PeerId, SHA2_256};
use crate::types::copy_bytes;
use std::cmp::Ordering;
use vstd::prelude::*;

verus! {

/// The distance between two keys: their exclusive or, taken as a number.
#[derive(Clone, Copy, Debug, PartialEq, Eq, Structural, Ord, Hash)]
pub struct Distance(pub U256);

impl Distance {
    /// The distance as a number.
    pub open spec fn value(self) -> nat {
        self.0.value()
    }

    /// Distances are known by their number.
    pub proof fn lemma_extensional(a: Distance, b: Distance)
        ensures
            a.value() == b.value() <==> a == b,
    {
        U256::lemma_extensional(a.0, b.0);
    }

    /// Whether this distance is the shorter one.
    pub fn less_than(&self, other: &Distance) -> (r: bool)
        ensures
            r == (self.value() < other.value()),
    {
        self.0.less_than(&other.0)
    }

    /// Returns the integer part of the base 2 logarithm of the [`Distance`].
    ///
    /// Returns `None` if the distance is zero.
    pub fn ilog2(&self) -> (r: Option<u32>)
        ensures
            match r {
                Some(i) => i < 256 && vstd::arithmetic::power2::pow2(i as nat) <= self.value()
                    < vstd::arithmetic::power2::pow2((i + 1) as nat),
                None => self.value() == 0,
            },
    {
        self.0.ilog2()
    }
}

impl PartialOrd for Distance {
    fn partial_cmp(&self, other: &Self) -> (r: Option<Ordering>) {
        proof {
            U256::lemma_extensional(self.0, other.0);
        }
        if self.less_than(other) {
            Some(Ordering::Less)
        } else if other.less_than(self) {
            Some(Ordering::Greater)
        } else {
            Some(Ordering::Equal)
        }
    }
}

impl vstd::std_specs::cmp::PartialOrdSpecImpl for Distance {
    open spec fn obeys_partial_cmp_spec() -> bool {
        true
    }

    open spec fn partial_cmp_spec(&self, other: &Distance) -> Option<Ordering> {
        if self.value() < other.value() {
            Some(Ordering::Less)
        } else if self.value() > other.value() {
            Some(Ordering::Greater)
        } else {
            Some(Ordering::Equal)
        }
    }
}

/// The number that `data` is hashed to: its SHA2-256 digest, the first byte highest.
pub open spec fn key_value(data: Seq<u8>) -> nat {
    match peer_id::hashed(SHA2_256, data) {
        Some(digest) => u256::be_nat(digest),
        None => 0,
    }
}

/// The place of the key space that `data` is hashed to.
pub open spec fn place_of(data: Seq<u8>) -> U256 {
    choose|place: U256| #[trigger] place.value() == key_value(data)
}

/// The place of the key space that `data` is hashed to.
pub fn hash_key(data: &Vec<u8>) -> (r: U256)
    ensures
        r == place_of(data@),
        r.value() == key_value(data@),
{
    let mut bytes: [u8; 32] = [0u8; 32];
    match digest(SHA2_256, data.as_slice()) {
        Some(d) => {
            let mut i: usize = 0;
            while i < 32
                invariant
                    i <= 32,
                    d@.len() == 32,
                    forall|j: int| 0 <= j < i ==> bytes@[j] == d@[j],
                decreases 32 - i,
            {
                bytes[i] = d[i];
                i += 1;
            }
            assert(bytes@ =~= d@);
        },
        None => {
            assert(false);
        },
    }
    let r = U256::from_be_bytes(&bytes);
    proof {
        U256::lemma_extensional(r, place_of(data@));
    }
    r
}

/// A key of the distributed hash table: what it stands for, and where that is hashed to.
#[derive(Debug, PartialEq, Eq)]
pub struct Key<T> {
    /// What the key stands for.
    pub preimage: T,
    /// Where it is hashed to.
    pub bytes: U256,
}

impl<T: Copy> Clone for Key<T> {
    fn clone(&self) -> (r: Self)
        ensures
            r == *self,
    {
        *self
    }
}

impl<T: Copy> Copy for Key<T> {

}

/// The distance between two places of the key space.
pub open spec fn xor_distance(a: U256, b: U256) -> Distance {
    Distance(a.spec_xor(b))
}

impl<T> Key<T> {
    /// The key at the given place, whatever it stands for.
    pub fn from_bytes(bytes: U256, preimage: T) -> (r: Self)
        ensures
            r.bytes == bytes,
            r.preimage == preimage,
    {
        Key { preimage, bytes }
    }

    /// What the key stands for.
    pub fn preimage(&self) -> (r: &T)
        ensures
            *r == self.preimage,
    {
        &self.preimage
    }

    /// What the key stands for.
    pub fn into_preimage(self) -> (r: T)
        ensures
            r == self.preimage,
    {
        self.preimage
    }

    /// The distance of this key to another one.
    pub fn distance<U>(&self, other: &Key<U>) -> (r: Distance)
        ensures
            r == xor_distance(self.bytes, other.bytes),
    {
        Distance(self.bytes.xor(&other.bytes))
    }

    /// The place that is at the given distance from this key.
    pub fn for_distance(&self, distance: Distance) -> (r: U256)
        ensures
            r == self.bytes.spec_xor(distance.0),
            xor_distance(self.bytes, r) == distance,
    {
        proof {
            law_for_distance(self.bytes, distance);
        }
        self.bytes.xor(&distance.0)
    }
}

impl Key<PeerId> {
    /// The key of a peer.
    pub open spec fn is_of_peer(self, peer: PeerId) -> bool {
        self.preimage == peer && self.bytes == place_of(peer.spec_bytes())
    }

    /// The key of `peer`: its bytes are hashed.
    pub fn from_peer(peer: PeerId) -> (r: Self)
        ensures
            r.is_of_peer(peer),
            peer.wf(),
    {
        Key { bytes: hash_key(&peer.to_bytes()), preimage: peer }
    }
}

impl Key<RecordKey> {
    /// The key of a record: its bytes are hashed.
    pub fn new(preimage: RecordKey) -> (r: Self)
        ensures
            r.preimage == preimage,
            r.bytes == place_of(preimage@),
    {
        Key { bytes: hash_key(preimage.as_bytes()), preimage }
    }
}

/// What a key can stand for: something that is made of bytes.
pub trait Preimage {
    /// The bytes.
    spec fn spec_preimage(&self) -> Seq<u8>;

    /// The bytes.
    fn preimage_bytes(&self) -> (r: Vec<u8>)
        ensures
            r@ == self.spec_preimage(),
    ;
}

impl Preimage for PeerId {
    open spec fn spec_preimage(&self) -> Seq<u8> {
        self.spec_bytes()
    }

    fn preimage_bytes(&self) -> (r: Vec<u8>) {
        self.to_bytes()
    }
}

impl Preimage for RecordKey {
    open spec fn spec_preimage(&self) -> Seq<u8> {
        self@
    }

    fn preimage_bytes(&self) -> (r: Vec<u8>) {
        self.to_vec()
    }
}

/// The distance is the same both ways.
pub proof fn law_distance_symmetric(a: U256, b: U256)
    ensures
        xor_distance(a, b) == xor_distance(b, a),
{
    let (ah, al, bh, bl) = (a.hi, a.lo, b.hi, b.lo);
    assert(ah ^ bh == bh ^ ah) by (bit_vector);
    assert(al ^ bl == bl ^ al) by (bit_vector);
}

/// The distance is zero exactly between a key and itself.
pub proof fn law_distance_zero(a: U256, b: U256)
    ensures
        xor_distance(a, b).value() == 0 <==> a == b,
{
    let (ah, al, bh, bl) = (a.hi, a.lo, b.hi, b.lo);
    assert(ah ^ bh == 0 <==> ah == bh) by (bit_vector);
    assert(al ^ bl == 0 <==> al == bl) by (bit_vector);
}

/// The detour over a third key is never shorter.
pub proof fn law_distance_triangle(a: U256, b: U256, c: U256)
    ensures
        xor_distance(a, c).value() <= xor_distance(a, b).value() + xor_distance(b, c).value(),
{
    let (ah, al, bh, bl, ch, cl) = (a.hi, a.lo, b.hi, b.lo, c.hi, c.lo);
    assert((ah ^ ch) <= (ah ^ bh) + (bh ^ ch)) by (bit_vector);
    assert((al ^ cl) <= (al ^ bl) + (bl ^ cl)) by (bit_vector);
    let x = ah ^ bh;
    let y = bh ^ ch;
    assert((x + y) * u256::limb() == x * u256::limb() + y * u256::limb());
    assert((ah ^ ch) * u256::limb() <= (x + y) * u256::limb());
}

/// For every key and every distance there is one key at that distance.
pub proof fn law_for_distance(a: U256, distance: Distance)
    ensures
        xor_distance(a, a.spec_xor(distance.0)) == distance,
        forall|b: U256| #[trigger] xor_distance(a, b) == distance ==> b == a.spec_xor(distance.0),
{
    let (ah, al, dh, dl) = (a.hi, a.lo, distance.0.hi, distance.0.lo);
    assert(ah ^ (ah ^ dh) == dh) by (bit_vector);
    assert(al ^ (al ^ dl) == dl) by (bit_vector);
    assert forall|b: U256| #[trigger] xor_distance(a, b) == distance implies b == a.spec_xor(
        distance.0,
    ) by {
        let (bh, bl) = (b.hi, b.lo);
        assert(ah ^ (ah ^ bh) == bh) by (bit_vector);
        assert(al ^ (al ^ bl) == bl) by (bit_vector);
    }
}

/// Connection type to peer.
#[derive(Clone, Copy, Debug, PartialEq, Eq, Structural)]
pub enum ConnectionType {
    /// Sender does not have a connection to peer.
    NotConnected,
    /// Sender is connected to the peer.
    Connected,
    /// Sender has recently been connected to the peer.
    CanConnect,
    /// Sender is unable to connect to the peer.
    CannotConnect,
}

impl ConnectionType {
    /// The number that stands for the connection type.
    pub open spec fn number(self) -> i32 {
        match self {
            ConnectionType::NotConnected => 0,
            ConnectionType::Connected => 1,
            ConnectionType::CanConnect => 2,
            ConnectionType::CannotConnect => 3,
        }
    }

    /// The connection type that a number stands for.
    pub fn try_from_number(value: i32) -> (r: Result<Self, ()>)
        ensures
            match r {
                Ok(connection) => connection.number() == value,
                Err(_) => !(0 <= value <= 3),
            },
    {
        match value {
            0 => Ok(ConnectionType::NotConnected),
            1 => Ok(ConnectionType::Connected),
            2 => Ok(ConnectionType::CanConnect),
            3 => Ok(ConnectionType::CannotConnect),
            _ => Err(()),
        }
    }

    /// The number that stands for the connection type.
    pub fn to_number(&self) -> (r: i32)
        ensures
            r == self.number(),
    {
        match self {
            ConnectionType::NotConnected => 0,
            ConnectionType::Connected => 1,
            ConnectionType::CanConnect => 2,
            ConnectionType::CannotConnect => 3,
        }
    }
}

/// Every connection type has its own number.
pub proof fn law_connection_numbers(a: ConnectionType, b: ConnectionType)
    requires
        a.number() == b.number(),
    ensures
        a == b,
{
}

/// Kademlia peer.
#[derive(Debug, PartialEq, Eq)]
pub struct KademliaPeer {
    /// Peer ID.
    pub peer: PeerId,
    /// Key of the peer.
    pub key: Key<PeerId>,
    /// Known addresses of peer.
    pub addresses: Vec<Multiaddr>,
    /// Connection type.
    pub connection: ConnectionType,
}

/// Kademlia peer, with the addresses by their views.
pub struct KademliaPeerView {
    /// Peer ID.
    pub peer: PeerId,
    /// Key of the peer.
    pub key: Key<PeerId>,
    /// Known addresses of peer.
    pub addresses: Seq<Seq<u8>>,
    /// Connection type.
    pub connection: ConnectionType,
}

impl View for KademliaPeer {
    type V = KademliaPeerView;

    open spec fn view(&self) -> KademliaPeerView {
        KademliaPeerView {
            peer: self.peer,
            key: self.key,
            addresses: address::address_views(self.addresses@),
            connection: self.connection,
        }
    }
}

/// The views of a list of peers.
pub open spec fn peer_views(peers: Seq<KademliaPeer>) -> Seq<KademliaPeerView> {
    Seq::new(peers.len(), |i: int| peers[i]@)
}

/// An optional peer, by its view.
pub open spec fn optional_peer_view(peer: Option<KademliaPeer>) -> Option<KademliaPeerView> {
    match peer {
        Some(peer) => Some(peer@),
        None => None,
    }
}

impl Clone for KademliaPeer {
    fn clone(&self) -> (r: Self)
        ensures
            r@ == self@,
    {
        KademliaPeer {
            peer: self.peer,
            key: self.key,
            addresses: copy_addresses(&self.addresses),
            connection: self.connection,
        }
    }
}

/// Those of the byte strings that are addresses, in order.
pub open spec fn valid_addresses(addrs: Seq<Seq<u8>>) -> Seq<Seq<u8>> {
    addrs.filter(|a: Seq<u8>| address::is_multiaddr(a))
}

/// What a peer on the wire stands for: the identity and the connection type must be valid, and
/// addresses that are not are left out.
pub open spec fn peer_parses(wire: schema::PeerView, peer: KademliaPeerView) -> bool {
    &&& peer_id::multihash_parsed(wire.id) == Some((peer.peer.code(), peer.peer.digest()))
    &&& peer.peer.wf()
    &&& peer.key.is_of_peer(peer.peer)
    &&& peer.addresses == valid_addresses(wire.addrs)
    &&& peer.connection.number() == wire.connection
}

/// Whether a peer on the wire stands for one.
pub open spec fn peer_valid(wire: schema::PeerView) -> bool {
    &&& peer_id::multihash_parsed(wire.id) matches Some((code, digest))
    &&& peer_id::peer_id_multihash(code, digest)
    &&& 0 <= wire.connection <= 3
}

fn parse_addresses(addrs: &Vec<Vec<u8>>) -> (r: Vec<Multiaddr>)
    ensures
        address::address_views(r@) == valid_addresses(
            Seq::new(addrs@.len(), |i: int| addrs@[i]@),
        ),
{
    let ghost wire = Seq::new(addrs@.len(), |i: int| addrs@[i]@);
    let ghost valid = |a: Seq<u8>| address::is_multiaddr(a);
    let mut r: Vec<Multiaddr> = Vec::new();
    let mut i: usize = 0;
    proof {
        reveal(Seq::filter);
        assert(wire.take(0) =~= Seq::<Seq<u8>>::empty());
        assert(address::address_views(r@) =~= wire.take(0).filter(valid));
    }
    while i < addrs.len()
        invariant
            i <= addrs.len(),
            wire == Seq::new(addrs@.len(), |i: int| addrs@[i]@),
            valid == (|a: Seq<u8>| address::is_multiaddr(a)),
            address::address_views(r@) == wire.take(i as int).filter(valid),
        decreases addrs.len() - i,
    {
        proof {
            reveal(Seq::filter);
            assert(wire.take(i + 1).drop_last() =~= wire.take(i as int));
            assert(wire.take(i + 1).last() == addrs@[i as int]@);
        }
        match Multiaddr::from_bytes(copy_bytes(&addrs[i])) {
            Some(parsed) => {
                let ghost before = address::address_views(r@);
                r.push(parsed);
                assert(address::address_views(r@) =~= before.push(parsed@));
            },
            None => {},
        }
        i += 1;
    }
    assert(wire.take(i as int) =~= wire);
    r
}

impl KademliaPeer {
    /// Create new [`KademliaPeer`].
    pub fn new(peer: PeerId, addresses: Vec<Multiaddr>, connection: ConnectionType) -> (r: Self)
        ensures
            r.peer == peer,
            r.key.is_of_peer(peer),
            r.addresses == addresses,
            r.connection == connection,
    {
        KademliaPeer { peer, key: Key::from_peer(peer), addresses, connection }
    }

    /// The peer that one on the wire stands for.
    pub fn try_from_schema(record: &schema::Peer) -> (r: Result<Self, ()>)
        ensures
            match r {
                Ok(peer) => peer_valid(record@) && peer_parses(record@, peer@),
                Err(_) => !peer_valid(record@),
            },
    {
        let peer = match PeerId::from_bytes(record.id.as_slice()) {
            Ok(peer) => peer,
            Err(_) => {
                return Err(());
            },
        };
        proof {
            PeerId::lemma_extensional(peer, peer);
        }
        let connection = match ConnectionType::try_from_number(record.connection) {
            Ok(connection) => connection,
            Err(_) => {
                return Err(());
            },
        };
        let addresses = parse_addresses(&record.addrs);
        Ok(KademliaPeer::new(peer, addresses, connection))
    }

    /// The peer on the wire.
    pub fn to_schema(&self) -> (r: schema::Peer)
        ensures
            r@ == wire_peer(self@),
    {
        let mut addrs: Vec<Vec<u8>> = Vec::new();
        let mut i: usize = 0;
        while i < self.addresses.len()
            invariant
                i <= self.addresses.len(),
                addrs.len() == i,
                forall|j: int| 0 <= j < i ==> (#[trigger] addrs@[j])@ == self.addresses@[j]@,
            decreases self.addresses.len() - i,
        {
            addrs.push(self.addresses[i].to_vec());
            i += 1;
        }
        let r = schema::Peer {
            id: self.peer.to_bytes(),
            addrs,
            connection: self.connection.to_number(),
        };
        assert(r@.addrs =~= self@.addresses);
        r
    }
}

/// A peer as it stands on the wire.
pub open spec fn wire_peer(peer: KademliaPeerView) -> schema::PeerView {
    schema::PeerView {
        id: peer.peer.spec_bytes(),
        addrs: peer.addresses,
        connection: peer.connection.number(),
    }
}

/// A peer whose addresses are valid comes back from the wire as it was.
pub proof fn law_peer_round_trip(peer: KademliaPeerView, parsed: KademliaPeerView)
    requires
        peer.peer.wf(),
        peer.key.is_of_peer(peer.peer),
        forall|i: int|
            0 <= i < peer.addresses.len() ==> address::is_multiaddr(#[trigger] peer.addresses[i]),
        peer_parses(wire_peer(peer), parsed),
    ensures
        parsed == peer,
        peer_valid(wire_peer(peer)),
{
    peer_id::law_peer_id_bytes_parse(peer.peer);
    PeerId::lemma_extensional(peer.peer, parsed.peer);
    lemma_filter_all(peer.addresses, |a: Seq<u8>| address::is_multiaddr(a));
}

/// A peer whose addresses are valid can be read from the wire.
pub proof fn lemma_wire_peer_parses(peer: KademliaPeerView)
    requires
        peer.peer.wf(),
        peer.key.is_of_peer(peer.peer),
        forall|i: int|
            0 <= i < peer.addresses.len() ==> address::is_multiaddr(#[trigger] peer.addresses[i]),
    ensures
        peer_parses(wire_peer(peer), peer),
        peer_valid(wire_peer(peer)),
{
    peer_id::law_peer_id_bytes_parse(peer.peer);
    lemma_filter_all(peer.addresses, |a: Seq<u8>| address::is_multiaddr(a));
}

proof fn lemma_filter_all<A>(s: Seq<A>, keep: spec_fn(A) -> bool)
    requires
        forall|i: int| 0 <= i < s.len() ==> keep(#[trigger] s[i]),
    ensures
        s.filter(keep) == s,
    decreases s.len(),
{
    reveal(Seq::filter);
    if s.len() > 0 {
        lemma_filter_all(s.drop_last(), keep);
        assert(s.drop_last().push(s.last()) =~= s);
    }
}

/// Everything has its place where its SHA2-256 digest is, taken as a number with the first byte
/// highest.
pub proof fn law_place_is_digest(data: Seq<u8>, digest: Seq<u8>)
    requires
        peer_id::hashed(0x12, data) == Some(digest),
        digest.len() == 32,
    ensures
        place_of(data).value() == u256::be_nat(digest),
{
    let place = u256::lemma_number_exists(digest);
    assert(place.value() == key_value(data));
}

} // verus!
