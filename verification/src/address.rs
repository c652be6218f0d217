//! Network addresses.

use crate::collections::{AssocSet, MapKey};
use crate::peer_id;
use crate::peer_id::PeerId;
use crate::types::{copy_bytes, same_bytes};
use crate::varint;
use vstd::prelude::*;

verus! {

/// Whether `bytes` are those of a multiaddress: a sequence of protocols, each with its value.
pub uninterp spec fn is_multiaddr(bytes: Seq<u8>) -> bool;

/// `multiaddr::Multiaddr::try_from` on a byte vector. It reads the protocols one by one, keeps the
/// bytes as they are, and fails where a protocol cannot be read.
#[verifier::external_body]
fn parse_multiaddr(bytes: Vec<u8>) -> (r: Option<Vec<u8>>)
    ensures
        match r {
            Some(parsed) => is_multiaddr(bytes@) && parsed@ == bytes@,
            None => !is_multiaddr(bytes@),
        },
{
    multiaddr::Multiaddr::try_from(bytes).ok().map(|address| address.to_vec())
}

/// The code of the protocol whose value is a peer identity.
pub const P2P: u64 = 421;

/// Whether the last protocol of an address is that of a peer identity.
pub uninterp spec fn ends_with_peer(bytes: Seq<u8>) -> bool;

/// `multiaddr::Multiaddr::iter` reads the protocols of an address one by one. What is no address
/// has no last protocol.
#[verifier::external_body]
fn last_is_peer(bytes: Vec<u8>) -> (r: bool)
    ensures
        r == ends_with_peer(bytes@),
{
    match multiaddr::Multiaddr::try_from(bytes) {
        Ok(address) => matches!(address.iter().last(), Some(multiaddr::Protocol::P2p(_))),
        Err(_) => false,
    }
}

/// The protocol of a peer identity and its value: a code, the length of the identity and the
/// identity.
pub open spec fn peer_component(peer: Seq<u8>) -> Seq<u8> {
    varint::varint(P2P as nat) + varint::varint(peer.len()) + peer
}

/// `multiaddr::Multiaddr::with`, for the protocol of a peer identity: it appends the protocol and its
/// value, and what comes out is an address that ends with a peer identity. There is nothing to
/// append to where the bytes are no address, and nothing to append where the other bytes are no
/// peer identity.
#[verifier::external_body]
fn append_peer(bytes: Vec<u8>, peer: &Vec<u8>) -> (r: Option<Vec<u8>>)
    ensures
        match r {
            Some(address) => {
                &&& is_multiaddr(bytes@)
                &&& peer_id::multihash_parsed(peer@) matches Some((code, digest))
                    && peer_id::peer_id_multihash(code, digest) && address@ == bytes@
                    + peer_component(peer_id::multihash_bytes(code, digest))
                &&& is_multiaddr(address@)
                &&& ends_with_peer(address@)
            },
            None => !is_multiaddr(bytes@) || match peer_id::multihash_parsed(peer@) {
                Some((code, digest)) => !peer_id::peer_id_multihash(code, digest),
                None => true,
            },
        },
{
    let address = multiaddr::Multiaddr::try_from(bytes).ok()?;
    let peer = multiaddr::PeerId::from_bytes(peer).ok()?;
    Some(address.with(multiaddr::Protocol::P2p(peer)).to_vec())
}

/// A network address, by its bytes.
#[derive(Debug, PartialEq, Eq)]
pub struct Multiaddr {
    bytes: Vec<u8>,
}

impl View for Multiaddr {
    type V = Seq<u8>;

    closed spec fn view(&self) -> Seq<u8> {
        self.bytes@
    }
}

impl MapKey for Multiaddr {
    fn same(&self, other: &Self) -> (r: bool) {
        same_bytes(&self.bytes, &other.bytes)
    }
}

impl Clone for Multiaddr {
    fn clone(&self) -> (r: Self)
        ensures
            r@ == self@,
    {
        Multiaddr { bytes: copy_bytes(&self.bytes) }
    }
}

impl Multiaddr {
    /// The address without any protocol.
    pub fn empty() -> (r: Self)
        ensures
            r@ == Seq::<u8>::empty(),
    {
        Multiaddr { bytes: Vec::new() }
    }

    /// The address with the given bytes, if they are those of one.
    pub fn from_bytes(bytes: Vec<u8>) -> (r: Option<Self>)
        ensures
            match r {
                Some(address) => is_multiaddr(bytes@) && address@ == bytes@,
                None => !is_multiaddr(bytes@),
            },
    {
        match parse_multiaddr(bytes) {
            Some(bytes) => Some(Multiaddr { bytes }),
            None => None,
        }
    }

    /// The bytes of the address.
    pub fn to_vec(&self) -> (r: Vec<u8>)
        ensures
            r@ == self@,
    {
        copy_bytes(&self.bytes)
    }
}

/// An address of a peer, with the identity of the peer at its end.
pub open spec fn known_address(address: Seq<u8>, peer: PeerId) -> Option<Seq<u8>> {
    if ends_with_peer(address) {
        Some(address)
    } else if is_multiaddr(address) {
        Some(address + peer_component(peer.spec_bytes()))
    } else {
        None
    }
}

/// An address of `peer`, with the identity of the peer at its end: it is added unless there is one.
pub fn with_peer(address: Multiaddr, peer: &PeerId) -> (r: Option<Multiaddr>)
    ensures
        match r {
            Some(known) => known_address(address@, *peer) == Some(known@),
            None => known_address(address@, *peer) is None,
        },
{
    if last_is_peer(address.to_vec()) {
        return Some(address);
    }
    let bytes = peer.to_bytes();
    proof {
        use_type_invariant(&*peer);
        peer_id::law_peer_id_bytes_parse(*peer);
    }
    match append_peer(address.bytes, &bytes) {
        Some(bytes) => Some(Multiaddr { bytes }),
        None => None,
    }
}

/// Whether `address` is one of `addresses` of a peer, with the identity of the peer at its end.
pub open spec fn is_known(addresses: Seq<Seq<u8>>, peer: PeerId, address: Seq<u8>) -> bool {
    exists|i: int|
        0 <= i < addresses.len() && known_address(#[trigger] addresses[i], peer) == Some(address)
}

/// The addresses of `peer`, each with the identity of the peer at its end and each once.
pub fn known_addresses(peer: &PeerId, addresses: Vec<Multiaddr>) -> (r: Vec<Multiaddr>)
    ensures
        address_views(r@).no_duplicates(),
        forall|address: Seq<u8>|
            address_views(r@).contains(address) <==> #[trigger] is_known(
                address_views(addresses@),
                *peer,
                address,
            ),
{
    let ghost all = address_views(addresses@);
    let mut addresses = addresses;
    let mut seen: AssocSet<Multiaddr> = AssocSet::new();
    let mut known: Vec<Multiaddr> = Vec::new();
    let ghost mut done = 0int;
    while addresses.len() > 0
        invariant
            0 <= done <= all.len(),
            address_views(addresses@) == all.skip(done),
            address_views(known@).no_duplicates(),
            seen@ == address_views(known@).to_set(),
            forall|address: Seq<u8>|
                address_views(known@).contains(address) <==> #[trigger] is_known(
                    all.take(done),
                    *peer,
                    address,
                ),
        decreases addresses@.len(),
    {
        let ghost before = address_views(known@);
        let ghost rest = address_views(addresses@);
        let first = addresses.remove(0);
        proof {
            assert(address_views(addresses@) =~= rest.skip(1));
            assert(rest.skip(1) =~= all.skip(done + 1));
            assert(rest[0] == first@);
            assert(rest[0] == all[done]);
            assert(all.take(done + 1) =~= all.take(done).push(first@));
            assert forall|address: Seq<u8>| #[trigger]
                is_known(all.take(done + 1), *peer, address) <==> is_known(
                    all.take(done),
                    *peer,
                    address,
                ) || known_address(first@, *peer) == Some(address) by {
                let now = all.take(done + 1);
                if is_known(all.take(done), *peer, address) {
                    let i = choose|i: int|
                        0 <= i < done && known_address(#[trigger] all.take(done)[i], *peer) == Some(
                            address,
                        );
                    assert(known_address(now[i], *peer) == Some(address));
                }
                if known_address(first@, *peer) == Some(address) {
                    assert(known_address(now[done], *peer) == Some(address));
                }
                if is_known(now, *peer, address) {
                    let i = choose|i: int|
                        0 <= i < now.len() && known_address(#[trigger] now[i], *peer) == Some(
                            address,
                        );
                    if i < done {
                        assert(known_address(all.take(done)[i], *peer) == Some(address));
                    }
                }
            }
        }
        if let Some(address) = with_peer(first, peer) {
            if seen.insert(address.clone()) {
                known.push(address);
                proof {
                    let now = address_views(known@);
                    assert(now =~= before.push(address@));
                    assert forall|a: Seq<u8>| #[trigger]
                        now.contains(a) <==> before.contains(a) || a == address@ by {
                        if before.contains(a) {
                            let i = choose|i: int| 0 <= i < before.len() && before[i] == a;
                            assert(now[i] == a);
                        }
                        if a == address@ {
                            assert(now[before.len() as int] == a);
                        }
                    }
                    assert(now.to_set() =~= before.to_set().insert(address@));
                    assert(!before.to_set().contains(address@));
                }
            } else {
                assert(before.to_set().insert(address@) =~= before.to_set());
                assert(before.to_set().contains(address@));
            }
        }
        proof {
            done = done + 1;
        }
    }
    assert(all.take(done) =~= all);
    known
}

/// The views of a list of addresses.
pub open spec fn address_views(addresses: Seq<Multiaddr>) -> Seq<Seq<u8>> {
    Seq::new(addresses.len(), |i: int| addresses[i]@)
}

/// A copy of a list of addresses.
pub fn copy_addresses(addresses: &Vec<Multiaddr>) -> (r: Vec<Multiaddr>)
    ensures
        address_views(r@) == address_views(addresses@),
{
    let mut r: Vec<Multiaddr> = Vec::new();
    let mut i: usize = 0;
    while i < addresses.len()
        invariant
            i <= addresses.len(),
            r.len() == i,
            forall|j: int| 0 <= j < i ==> (#[trigger] r@[j])@ == addresses@[j]@,
        decreases addresses.len() - i,
    {
        r.push(addresses[i].clone());
        i += 1;
    }
    assert(address_views(r@) =~= address_views(addresses@));
    r
}

/// The address under which a peer is known is the one that was given, followed by the identity of
/// the peer unless there is an identity at its end.
pub proof fn law_known_address_names_peer(address: Seq<u8>, peer: PeerId, known: Seq<u8>)
    requires
        known_address(address, peer) == Some(known),
    ensures
        known.len() >= address.len(),
        known.take(address.len() as int) == address,
        ends_with_peer(address) ==> known == address,
        !ends_with_peer(address) ==> ({
            let id = peer.spec_bytes();
            let code = varint::varint(421);
            &&& known.len() > address.len() + id.len()
            &&& known.skip(known.len() - id.len()) == id
            &&& known.skip(address.len() as int).take(code.len() as int) == code
        }),
{
    let id = peer.spec_bytes();
    let code = varint::varint(421);
    assert(known.take(address.len() as int) =~= address);
    if !ends_with_peer(address) {
        assert(known.skip(known.len() - id.len()) =~= id);
        assert(known.skip(address.len() as int).take(code.len() as int) =~= code);
    }
}

/// Every address under which a peer can be reached is known, and only those are.
pub proof fn law_usable_addresses_known(address: Seq<u8>, peer: PeerId)
    ensures
        known_address(address, peer) is Some <==> ends_with_peer(address) || is_multiaddr(address),
{
}

} // verus!
