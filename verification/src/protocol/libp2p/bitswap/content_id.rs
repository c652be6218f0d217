//! Content identifiers.

use crate::peer_id;
use crate::peer_id::{Multihash, MAX_DIGEST_LENGTH, SHA2_256};
use crate::varint;
use vstd::prelude::*;

verus! {

/// The codec of every identifier of version 0.
pub const DAG_PB: u64 = 0x70;

/// The length of the digest of every identifier of version 0.
pub const V0_DIGEST_LENGTH: usize = 32;

/// The version of a content identifier.
#[derive(Clone, Copy, Debug, PartialEq, Eq, Structural, Hash)]
pub enum Version {
    /// Version 0.
    V0,
    /// Version 1.
    V1,
}

impl Version {
    /// The number of the version.
    pub open spec fn spec_number(self) -> u64 {
        match self {
            Version::V0 => 0,
            Version::V1 => 1,
        }
    }

    /// The number of the version.
    pub fn number(self) -> (r: u64)
        ensures
            r == self.spec_number(),
    {
        match self {
            Version::V0 => 0,
            Version::V1 => 1,
        }
    }

    /// The version with a number, if there is one.
    pub fn from_number(number: u64) -> (r: Option<Self>)
        ensures
            match r {
                Some(version) => version.spec_number() == number,
                None => number > 1,
            },
    {
        if number == 0 {
            Some(Version::V0)
        } else if number == 1 {
            Some(Version::V1)
        } else {
            None
        }
    }
}

/// What a content identifier consists of.
pub struct CidView {
    /// Version.
    pub version: Version,
    /// Codec of the content.
    pub codec: u64,
    /// Code of the hash function.
    pub code: u64,
    /// Digest of the content.
    pub digest: Seq<u8>,
}

impl CidView {
    /// Whether the parts make an identifier: a digest is no longer than 64 bytes, and an identifier
    /// of version 0 is a SHA2-256 hash of `DAG_PB` content.
    pub open spec fn wf(self) -> bool {
        &&& self.digest.len() <= MAX_DIGEST_LENGTH
        &&& self.version is V0 ==> self.codec == DAG_PB && self.code == SHA2_256
            && self.digest.len() == V0_DIGEST_LENGTH
    }
}

/// The bytes of an identifier: the multihash alone in version 0; the version, the codec and the
/// multihash in version 1.
pub open spec fn cid_bytes(cid: CidView) -> Seq<u8> {
    match cid.version {
        Version::V0 => peer_id::multihash_bytes(cid.code, cid.digest),
        Version::V1 => varint::varint(1) + varint::varint(cid.codec as nat)
            + peer_id::multihash_bytes(cid.code, cid.digest),
    }
}

/// The multihash at the front of `bytes`, whatever follows it.
pub open spec fn multihash_read(bytes: Seq<u8>) -> Option<(u64, Seq<u8>)> {
    match varint::varint_decoded(bytes) {
        Some((code, rest)) => match varint::varint_decoded(rest) {
            Some((size, rest)) => if size <= MAX_DIGEST_LENGTH && size <= rest.len() {
                Some((code, rest.take(size as int)))
            } else {
                None
            },
            None => None,
        },
        None => None,
    }
}

/// The identifier at the front of `bytes`, whatever follows it: one of version 0 begins with the
/// numbers 0x12 and 0x20, one of version 1 with its version and its codec.
pub open spec fn cid_read(bytes: Seq<u8>) -> Option<CidView> {
    match varint::varint_decoded(bytes) {
        Some((first, rest)) => match varint::varint_decoded(rest) {
            Some((second, rest)) => if first == 0x12 && second == 0x20 {
                if rest.len() >= V0_DIGEST_LENGTH {
                    Some(
                        CidView {
                            version: Version::V0,
                            codec: DAG_PB,
                            code: SHA2_256,
                            digest: rest.take(V0_DIGEST_LENGTH as int),
                        },
                    )
                } else {
                    None
                }
            } else if first == 1 {
                match multihash_read(rest) {
                    Some((code, digest)) => Some(
                        CidView { version: Version::V1, codec: second, code, digest },
                    ),
                    None => None,
                }
            } else {
                None
            },
            None => None,
        },
        None => None,
    }
}

/// `cid::Cid::read_bytes` reads an identifier from the front of `bytes`. It fails where a number
/// cannot be read, the version is neither 0, written without its number, nor 1, the length of the
/// digest is above 64, or the bytes end before the digest does.
#[verifier::external_body]
fn read_cid(bytes: &[u8]) -> (r: Option<(u64, u64, u64, Vec<u8>)>)
    ensures
        match r {
            Some((version, codec, code, digest)) => {
                &&& version <= 1
                &&& cid_read(bytes@) == Some(
                    CidView {
                        version: if version == 0 {
                            Version::V0
                        } else {
                            Version::V1
                        },
                        codec,
                        code,
                        digest: digest@,
                    },
                )
            },
            None => cid_read(bytes@) is None,
        },
{
    let cid = cid::Cid::read_bytes(bytes).ok()?;
    let hash = cid.hash();
    Some((cid.version().into(), cid.codec(), hash.code(), hash.digest().to_vec()))
}

/// `cid::Cid::to_bytes` writes the multihash, behind the version and the codec in version 1.
#[verifier::external_body]
fn write_cid(version: u64, codec: u64, code: u64, digest: &[u8]) -> (r: Vec<u8>)
    requires
        version <= 1,
        digest@.len() <= MAX_DIGEST_LENGTH,
        version == 0 ==> codec == DAG_PB && code == SHA2_256 && digest@.len() == V0_DIGEST_LENGTH,
    ensures
        r@ == cid_bytes(
            CidView {
                version: if version == 0 {
                    Version::V0
                } else {
                    Version::V1
                },
                codec,
                code,
                digest: digest@,
            },
        ),
{
    let hash = cid::multihash::Multihash::<64>::wrap(code, digest).unwrap();
    let version = cid::Version::try_from(version).unwrap();
    cid::Cid::new(version, codec, hash).unwrap().to_bytes()
}

/// Content identifier.
#[derive(Clone, Copy, Debug, PartialEq, Eq, Hash)]
pub struct Cid {
    version: Version,
    codec: u64,
    hash: Multihash,
}

impl View for Cid {
    type V = CidView;

    closed spec fn view(&self) -> CidView {
        CidView {
            version: self.version,
            codec: self.codec,
            code: self.hash.spec_code(),
            digest: self.hash.spec_digest(),
        }
    }
}

impl Cid {
    /// The parts make an identifier.
    #[verifier::type_invariant]
    pub closed spec fn wf(self) -> bool {
        self.hash.wf() && self@.wf()
    }

    /// Create a new identifier, unless the version does not permit the codec or the multihash.
    pub fn new(version: Version, codec: u64, hash: Multihash) -> (r: Option<Self>)
        ensures
            ({
                let view = CidView {
                    version,
                    codec,
                    code: hash.spec_code(),
                    digest: hash.spec_digest(),
                };
                match r {
                    Some(cid) => view.wf() && cid@ == view,
                    None => !view.wf(),
                }
            }),
    {
        let digest = hash.digest();
        match version {
            Version::V0 => if codec == DAG_PB && hash.code() == SHA2_256 && digest.len()
                == V0_DIGEST_LENGTH {
                Some(Cid { version, codec, hash })
            } else {
                None
            },
            Version::V1 => Some(Cid { version, codec, hash }),
        }
    }

    /// The version.
    pub fn version(&self) -> (r: Version)
        ensures
            r == self@.version,
    {
        self.version
    }

    /// The codec of the content.
    pub fn codec(&self) -> (r: u64)
        ensures
            r == self@.codec,
    {
        self.codec
    }

    /// The multihash of the content.
    pub fn hash(&self) -> (r: Multihash)
        ensures
            r.spec_code() == self@.code,
            r.spec_digest() == self@.digest,
            r.wf(),
            self@.wf(),
    {
        proof {
            use_type_invariant(self);
        }
        self.hash
    }

    /// Reads an identifier from the front of `bytes`.
    pub fn read_bytes(bytes: &[u8]) -> (r: Option<Self>)
        ensures
            match r {
                Some(cid) => cid_read(bytes@) == Some(cid@),
                None => cid_read(bytes@) is None,
            },
    {
        proof {
            lemma_read_wf(bytes@);
        }
        let (number, codec, code, digest) = match read_cid(bytes) {
            Some(parts) => parts,
            None => {
                return None;
            },
        };
        let version = if number == 0 {
            Version::V0
        } else {
            Version::V1
        };
        match Multihash::wrap(code, digest.as_slice()) {
            Some(hash) => Cid::new(version, codec, hash),
            None => None,
        }
    }

    /// The bytes of the identifier.
    pub fn to_bytes(&self) -> (r: Vec<u8>)
        ensures
            r@ == cid_bytes(self@),
            self@.wf(),
    {
        proof {
            use_type_invariant(self);
        }
        let digest = self.hash.digest();
        write_cid(self.version.number(), self.codec, self.hash.code(), digest.as_slice())
    }
}

/// What is read is an identifier.
pub proof fn lemma_read_wf(bytes: Seq<u8>)
    ensures
        cid_read(bytes) matches Some(cid) ==> cid.wf(),
{
}

/// Reading what was written gives the identifier back, whatever follows it.
pub proof fn law_cid_round_trip(cid: CidView, rest: Seq<u8>)
    requires
        cid.wf(),
    ensures
        cid_read(cid_bytes(cid) + rest) == Some(cid),
{
    let code = varint::varint(cid.code as nat);
    let size = varint::varint(cid.digest.len());
    let hash = code + (size + (cid.digest + rest));
    varint::law_varint_round_trip(cid.code, size + (cid.digest + rest));
    varint::law_varint_round_trip(cid.digest.len() as u64, cid.digest + rest);
    assert((cid.digest + rest).take(cid.digest.len() as int) =~= cid.digest);
    match cid.version {
        Version::V0 => {
            assert(cid_bytes(cid) + rest =~= hash);
        },
        Version::V1 => {
            let codec = varint::varint(cid.codec as nat);
            varint::law_varint_round_trip(1, codec + hash);
            varint::law_varint_round_trip(cid.codec, hash);
            assert(cid_bytes(cid) + rest =~= varint::varint(1) + (codec + hash));
        },
    }
}

} // verus!
