//! Peer identities.

use crate::collections::MapKey;
use crate::error::ParseError;
use crate::random::random_bytes;
use crate::varint;
use multihash_codetable::MultihashDigest;
use vstd::prelude::*;

verus! {

/// Public keys whose encoding is no longer than this are peer identities as they stand; longer
/// ones are hashed.
pub const MAX_INLINE_KEY_LENGTH: usize = 42;

/// The code of the identity multihash.
pub const IDENTITY: u64 = 0x00;

/// The code of the SHA2-256 multihash.
pub const SHA2_256: u64 = 0x12;

/// The longest digest that a multihash holds.
pub const MAX_DIGEST_LENGTH: usize = 64;

/// The bytes of a multihash: the code, the length of the digest and the digest.
pub open spec fn multihash_bytes(code: u64, digest: Seq<u8>) -> Seq<u8> {
    varint::varint(code as nat) + varint::varint(digest.len()) + digest
}

/// What the bytes of a multihash stand for: they hold a code, a length of at most 64 and that many
/// bytes, and nothing else.
pub open spec fn multihash_parsed(bytes: Seq<u8>) -> Option<(u64, Seq<u8>)> {
    match varint::varint_decoded(bytes) {
        Some((code, rest)) => match varint::varint_decoded(rest) {
            Some((size, digest)) => if size <= MAX_DIGEST_LENGTH && digest.len() == size {
                Some((code, digest))
            } else {
                None
            },
            None => None,
        },
        None => None,
    }
}

/// The digest of `data` under the hash function with the multihash code `code`, if the hash
/// functions of `multihash_codetable::Code` hold one.
pub uninterp spec fn hashed(code: u64, data: Seq<u8>) -> Option<Seq<u8>>;

/// `multihash::Multihash::to_bytes` writes code, length and digest.
#[verifier::external_body]
fn multihash_to_bytes(code: u64, digest: &[u8]) -> (r: Vec<u8>)
    requires
        digest@.len() <= MAX_DIGEST_LENGTH,
    ensures
        r@ == multihash_bytes(code, digest@),
{
    multihash::Multihash::<64>::wrap(code, digest).unwrap().to_bytes()
}

/// `multihash::Multihash::from_bytes` reads a code, a length and a digest, and fails where either
/// number cannot be read, the length is above 64 or a different number of bytes follows.
#[verifier::external_body]
fn multihash_from_bytes(bytes: &[u8]) -> (r: Option<(u64, Vec<u8>)>)
    ensures
        match r {
            Some((code, digest)) => multihash_parsed(bytes@) == Some((code, digest@)),
            None => multihash_parsed(bytes@) is None,
        },
{
    let parsed = multihash::Multihash::<64>::from_bytes(bytes).ok()?;
    Some((parsed.code(), parsed.digest().to_vec()))
}

/// `multihash_codetable::Code::digest`, for the hash function that `Code::try_from` finds under
/// `code`. A digest is never longer than 64 bytes; that of SHA2-256 is there and is 32 bytes long.
#[verifier::external_body]
pub(crate) fn digest(code: u64, data: &[u8]) -> (r: Option<Vec<u8>>)
    ensures
        match r {
            Some(d) => hashed(code, data@) == Some(d@) && d@.len() <= MAX_DIGEST_LENGTH,
            None => hashed(code, data@) is None && code != SHA2_256,
        },
        code == SHA2_256 && r is Some ==> r->Some_0@.len() == 32,
{
    let code = multihash_codetable::Code::try_from(code).ok()?;
    Some(code.digest(data).digest().to_vec())
}

/// The text that `bytes` has in base-58.
pub uninterp spec fn base58(bytes: Seq<u8>) -> Seq<char>;

/// The bytes that a base-58 text stands for, if it is one.
pub uninterp spec fn base58_decoded(text: Seq<char>) -> Option<Seq<u8>>;

/// `bs58::encode(..).into_string()`. Decoding the text gives the bytes back.
#[verifier::external_body]
fn base58_encode(bytes: &Vec<u8>) -> (r: String)
    ensures
        r@ == base58(bytes@),
        base58_decoded(r@) == Some(bytes@),
{
    bs58::encode(bytes).into_string()
}

/// `bs58::decode(..).into_vec()`.
#[verifier::external_body]
fn base58_decode(text: &str) -> (r: Option<Vec<u8>>)
    ensures
        match r {
            Some(bytes) => base58_decoded(text@) == Some(bytes@),
            None => base58_decoded(text@) is None,
        },
{
    bs58::decode(text).into_vec().ok()
}

/// A hash together with the code of the function that made it.
#[derive(Clone, Copy, Debug, PartialEq, Eq, Hash)]
pub struct Multihash {
    code: u64,
    size: u8,
    bytes: [u8; 64],
}

impl Multihash {
    /// The bytes behind the digest are zero.
    #[verifier::type_invariant]
    pub closed spec fn wf(self) -> bool {
        &&& self.size <= 64
        &&& forall|i: int| self.size <= i < 64 ==> self.bytes@[i] == 0
    }

    /// The code of the hash function.
    pub closed spec fn spec_code(&self) -> u64 {
        self.code
    }

    /// The digest.
    pub closed spec fn spec_digest(&self) -> Seq<u8> {
        self.bytes@.take(self.size as int)
    }

    /// A well-formed multihash is known by its code and its digest.
    pub proof fn lemma_extensional(a: Self, b: Self)
        requires
            a.wf(),
            b.wf(),
            a.spec_code() == b.spec_code(),
            a.spec_digest() == b.spec_digest(),
        ensures
            a == b,
    {
        assert(a.spec_digest().len() == a.size);
        assert(b.spec_digest().len() == b.size);
        assert forall|i: int| 0 <= i < 64 implies a.bytes[i] == b.bytes[i] by {
            if i < a.size {
                assert(a.spec_digest()[i] == a.bytes@[i]);
                assert(b.spec_digest()[i] == b.bytes@[i]);
            }
        }
        assert(a.bytes =~= b.bytes);
    }

    /// Puts `digest` under `code`, unless it is too long.
    pub fn wrap(code: u64, digest: &[u8]) -> (r: Option<Self>)
        ensures
            match r {
                Some(m) => {
                    &&& digest@.len() <= MAX_DIGEST_LENGTH
                    &&& m.wf()
                    &&& m.spec_code() == code
                    &&& m.spec_digest() == digest@
                },
                None => digest@.len() > MAX_DIGEST_LENGTH,
            },
    {
        if digest.len() > MAX_DIGEST_LENGTH {
            return None;
        }
        let mut bytes: [u8; 64] = [0u8; 64];
        let mut i: usize = 0;
        while i < digest.len()
            invariant
                i <= digest@.len() <= 64,
                forall|j: int| 0 <= j < i ==> bytes@[j] == digest@[j],
                forall|j: int| i <= j < 64 ==> bytes@[j] == 0,
            decreases digest@.len() - i,
        {
            bytes[i] = digest[i];
            i += 1;
        }
        let r = Multihash { code, size: digest.len() as u8, bytes };
        assert(r.spec_digest() =~= digest@);
        Some(r)
    }

    /// The code of the hash function.
    pub fn code(&self) -> (r: u64)
        ensures
            r == self.spec_code(),
    {
        self.code
    }

    /// The digest.
    pub fn digest(&self) -> (r: Vec<u8>)
        ensures
            r@ == self.spec_digest(),
            r@.len() <= MAX_DIGEST_LENGTH,
            self.wf(),
    {
        proof {
            use_type_invariant(self);
        }
        let mut r: Vec<u8> = Vec::new();
        let mut i: usize = 0;
        while i < self.size as usize
            invariant
                i <= self.size <= 64,
                r@ == self.bytes@.take(i as int),
            decreases self.size - i,
        {
            r.push(self.bytes[i]);
            i += 1;
            assert(self.bytes@.take(i as int) =~= self.bytes@.take(i - 1).push(self.bytes@[i - 1]));
        }
        r
    }

    fn same(&self, other: &Self) -> (r: bool)
        ensures
            r == (*self == *other),
    {
        if self.code != other.code || self.size != other.size {
            return false;
        }
        let mut i: usize = 0;
        while i < 64
            invariant
                i <= 64,
                forall|j: int| 0 <= j < i ==> self.bytes[j] == other.bytes[j],
            decreases 64 - i,
        {
            if self.bytes[i] != other.bytes[i] {
                return false;
            }
            i += 1;
        }
        assert(self.bytes =~= other.bytes);
        true
    }
}

/// A public key, by its protobuf encoding.
#[derive(Debug, PartialEq, Eq)]
pub struct PublicKey {
    encoding: Vec<u8>,
}

impl View for PublicKey {
    type V = Seq<u8>;

    closed spec fn view(&self) -> Seq<u8> {
        self.encoding@
    }
}

impl PublicKey {
    /// The key with the given protobuf encoding.
    pub fn from_protobuf_encoding(encoding: Vec<u8>) -> (r: Self)
        ensures
            r@ == encoding@,
    {
        PublicKey { encoding }
    }

    /// The protobuf encoding.
    pub fn to_protobuf_encoding(&self) -> (r: &Vec<u8>)
        ensures
            r@ == self@,
    {
        &self.encoding
    }

    /// The identity of the peer that owns the key.
    pub fn to_peer_id(&self) -> (r: PeerId)
        ensures
            r.is_of_key(self@),
    {
        PeerId::from_public_key(self)
    }
}

/// Whether a multihash can be the identity of a peer: it is a SHA2-256 hash, or an identity hash
/// of at most `MAX_INLINE_KEY_LENGTH` bytes.
pub open spec fn peer_id_multihash(code: u64, digest: Seq<u8>) -> bool {
    code == SHA2_256 || (code == IDENTITY && digest.len() <= MAX_INLINE_KEY_LENGTH)
}

/// The identity of a peer: the multihash of its public key.
#[derive(Clone, Copy, Debug, PartialEq, Eq, Hash)]
pub struct PeerId {
    multihash: Multihash,
}

impl View for PeerId {
    type V = PeerId;

    open spec fn view(&self) -> PeerId {
        *self
    }
}

impl MapKey for PeerId {
    fn same(&self, other: &Self) -> (r: bool) {
        self.multihash.same(&other.multihash)
    }
}

impl PeerId {
    /// The multihash can be the identity of a peer.
    #[verifier::type_invariant]
    pub closed spec fn wf(self) -> bool {
        &&& self.multihash.wf()
        &&& peer_id_multihash(self.multihash.spec_code(), self.multihash.spec_digest())
    }

    /// The code of the multihash.
    pub closed spec fn code(self) -> u64 {
        self.multihash.spec_code()
    }

    /// The digest of the multihash.
    pub closed spec fn digest(self) -> Seq<u8> {
        self.multihash.spec_digest()
    }

    /// The bytes of the multihash.
    pub open spec fn spec_bytes(self) -> Seq<u8> {
        multihash_bytes(self.code(), self.digest())
    }

    /// Whether this is the identity that belongs to the key with the given encoding.
    pub open spec fn is_of_key(self, encoding: Seq<u8>) -> bool {
        if encoding.len() <= MAX_INLINE_KEY_LENGTH {
            self.code() == IDENTITY && self.digest() == encoding
        } else {
            self.code() == SHA2_256 && hashed(SHA2_256, encoding) == Some(self.digest())
        }
    }

    /// An identity is known by its code and its digest, and those are such as an identity can
    /// have.
    pub proof fn lemma_extensional(a: Self, b: Self)
        requires
            a.wf(),
            b.wf(),
            a.code() == b.code(),
            a.digest() == b.digest(),
        ensures
            a == b,
            peer_id_multihash(a.code(), a.digest()),
            a.digest().len() <= MAX_DIGEST_LENGTH,
    {
        Multihash::lemma_extensional(a.multihash, b.multihash);
    }

    /// Builds a `PeerId` from a public key.
    pub fn from_public_key(key: &PublicKey) -> (r: PeerId)
        ensures
            r.wf(),
            r.is_of_key(key@),
    {
        let encoding = key.to_protobuf_encoding();
        if encoding.len() <= MAX_INLINE_KEY_LENGTH {
            match Multihash::wrap(IDENTITY, encoding.as_slice()) {
                Some(multihash) => {
                    return PeerId { multihash };
                },
                None => {
                    assert(false);
                },
            }
        }
        match digest(SHA2_256, encoding.as_slice()) {
            Some(d) => match Multihash::wrap(SHA2_256, d.as_slice()) {
                Some(multihash) => PeerId { multihash },
                None => {
                    assert(false);
                    PeerId::random()
                },
            },
            None => {
                assert(false);
                PeerId::random()
            },
        }
    }

    /// Parses a `PeerId` from bytes.
    pub fn from_bytes(data: &[u8]) -> (r: Result<PeerId, ParseError>)
        ensures
            match r {
                Ok(peer) => peer.wf() && multihash_parsed(data@) == Some((peer.code(), peer.digest())),
                Err(e) => {
                    &&& e == ParseError::MultiHash
                    &&& match multihash_parsed(data@) {
                        Some((code, digest)) => !peer_id_multihash(code, digest),
                        None => true,
                    }
                },
            },
    {
        match multihash_from_bytes(data) {
            Some((code, digest)) => match Multihash::wrap(code, digest.as_slice()) {
                Some(multihash) => match PeerId::from_multihash(multihash) {
                    Ok(peer) => Ok(peer),
                    Err(_) => Err(ParseError::MultiHash),
                },
                None => {
                    assert(false);
                    Err(ParseError::MultiHash)
                },
            },
            None => Err(ParseError::MultiHash),
        }
    }

    /// Tries to turn a `Multihash` into a `PeerId`.
    ///
    /// If the multihash does not use a valid hashing algorithm for peer IDs,
    /// or the hash value does not satisfy the constraints for a hashed
    /// peer ID, it is returned as an `Err`.
    pub fn from_multihash(multihash: Multihash) -> (r: Result<PeerId, Multihash>)
        ensures
            match r {
                Ok(peer) => {
                    &&& peer.wf()
                    &&& peer_id_multihash(multihash.spec_code(), multihash.spec_digest())
                    &&& peer.code() == multihash.spec_code()
                    &&& peer.digest() == multihash.spec_digest()
                },
                Err(m) => {
                    &&& !peer_id_multihash(multihash.spec_code(), multihash.spec_digest())
                    &&& m == multihash
                },
            },
    {
        proof {
            use_type_invariant(&multihash);
        }
        if multihash.code() == SHA2_256 {
            return Ok(PeerId { multihash });
        }
        let digest = multihash.digest();
        if multihash.code() == IDENTITY && digest.len() <= MAX_INLINE_KEY_LENGTH {
            Ok(PeerId { multihash })
        } else {
            Err(multihash)
        }
    }

    /// The identity whose digest is `bytes` as they stand.
    pub fn from_random_bytes(bytes: [u8; 32]) -> (r: PeerId)
        ensures
            r.wf(),
            r.code() == IDENTITY,
            r.digest() == bytes@,
    {
        let mut inline: [u8; 64] = [0u8; 64];
        let mut i: usize = 0;
        while i < 32
            invariant
                i <= 32,
                forall|j: int| 0 <= j < i ==> inline@[j] == bytes@[j],
                forall|j: int| i <= j < 64 ==> inline@[j] == 0,
            decreases 32 - i,
        {
            inline[i] = bytes[i];
            i += 1;
        }
        let multihash = Multihash { code: IDENTITY, size: 32, bytes: inline };
        assert(multihash.spec_digest() =~= bytes@);
        PeerId { multihash }
    }

    /// Generates a random peer ID.
    ///
    /// This is useful for randomly walking on a DHT, or for testing purposes.
    pub fn random() -> (r: PeerId)
        ensures
            r.wf(),
            r.code() == IDENTITY,
            r.digest().len() == 32,
    {
        PeerId::from_random_bytes(random_bytes())
    }

    /// Returns a raw bytes representation of this `PeerId`.
    pub fn to_bytes(&self) -> (r: Vec<u8>)
        ensures
            r@ == self.spec_bytes(),
            self.wf(),
    {
        proof {
            use_type_invariant(self);
        }
        let digest = self.multihash.digest();
        multihash_to_bytes(self.multihash.code(), digest.as_slice())
    }

    /// Returns a base-58 encoded string of this `PeerId`.
    pub fn to_base58(&self) -> (r: String)
        ensures
            r@ == base58(self.spec_bytes()),
            base58_decoded(r@) == Some(self.spec_bytes()),
            self.wf(),
    {
        base58_encode(&self.to_bytes())
    }

    /// Parses the base-58 text of a `PeerId`.
    pub fn from_base58(text: &str) -> (r: Result<PeerId, ParseError>)
        ensures
            match r {
                Ok(peer) => {
                    &&& peer.wf()
                    &&& base58_decoded(text@) matches Some(bytes)
                    &&& multihash_parsed(bytes) == Some((peer.code(), peer.digest()))
                },
                Err(ParseError::B58) => base58_decoded(text@) is None,
                Err(ParseError::MultiHash) => {
                    &&& base58_decoded(text@) matches Some(bytes)
                    &&& match multihash_parsed(bytes) {
                        Some((code, digest)) => !peer_id_multihash(code, digest),
                        None => true,
                    }
                },
            },
    {
        match base58_decode(text) {
            Some(bytes) => PeerId::from_bytes(bytes.as_slice()),
            None => Err(ParseError::B58),
        }
    }
}

/// Parsing the bytes of an identity gives the identity back.
pub proof fn law_peer_id_bytes_round_trip(peer: PeerId, parsed: PeerId)
    requires
        peer.wf(),
        parsed.wf(),
        multihash_parsed(peer.spec_bytes()) == Some((parsed.code(), parsed.digest())),
    ensures
        parsed == peer,
{
    law_peer_id_bytes_parse(peer);
    PeerId::lemma_extensional(peer, parsed);
}

/// The bytes of an identity can be parsed: they hold its code and its digest.
pub proof fn law_peer_id_bytes_parse(peer: PeerId)
    requires
        peer.wf(),
    ensures
        multihash_parsed(peer.spec_bytes()) == Some((peer.code(), peer.digest())),
        peer_id_multihash(peer.code(), peer.digest()),
{
    PeerId::lemma_extensional(peer, peer);
    let size = peer.digest().len();
    let rest = varint::varint(size) + peer.digest();
    assert(peer.spec_bytes() =~= varint::varint(peer.code() as nat) + rest);
    varint::law_varint_round_trip(peer.code(), rest);
    varint::law_varint_round_trip(size as u64, peer.digest());
}

/// Distinct identities have distinct bytes.
pub proof fn law_peer_id_bytes_injective(a: PeerId, b: PeerId)
    requires
        a.wf(),
        b.wf(),
        a.spec_bytes() == b.spec_bytes(),
    ensures
        a == b,
{
    law_peer_id_bytes_parse(a);
    law_peer_id_bytes_parse(b);
    PeerId::lemma_extensional(a, b);
}

/// The bytes of an identity are the code of its hash function, the length of its digest and the
/// digest, in this order and nothing else.
pub proof fn law_peer_id_on_wire(peer: PeerId)
    requires
        peer.wf(),
    ensures
        varint::varint_decoded(peer.spec_bytes()) matches Some((code, rest)) && code == peer.code()
            && (varint::varint_decoded(rest) matches Some((size, digest)) && size == digest.len()
            && digest == peer.digest()),
{
    PeerId::lemma_extensional(peer, peer);
    let size = peer.digest().len();
    let rest = varint::varint(size) + peer.digest();
    assert(peer.spec_bytes() =~= varint::varint(peer.code() as nat) + rest);
    varint::law_varint_round_trip(peer.code(), rest);
    varint::law_varint_round_trip(size as u64, peer.digest());
}

/// A key belongs to one identity, and a short key can be read off its identity. The identity of a
/// longer one is its SHA2-256 hash.
pub proof fn law_key_has_one_identity(a: PeerId, b: PeerId, encoding: Seq<u8>)
    requires
        a.wf(),
        b.wf(),
        a.is_of_key(encoding),
        b.is_of_key(encoding),
    ensures
        a == b,
        encoding.len() <= 42 ==> a.code() == 0 && a.digest() == encoding,
        encoding.len() > 42 ==> a.code() == 0x12 && hashed(0x12, encoding) == Some(a.digest()),
{
    PeerId::lemma_extensional(a, b);
}

/// Bytes stand for an identity if they are a SHA2-256 hash, or a key that is short enough to be an
/// identity as it stands.
pub proof fn law_identities_accepted(code: u64, digest: Seq<u8>)
    ensures
        peer_id_multihash(code, digest) <==> code == 0x12 || (code == 0 && digest.len() <= 42),
{
}

} // verus!
