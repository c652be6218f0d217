//! Bitswap metadata.

use super::content_id::Version;
use crate::varint;
use crate::varint::{decode_u64, encode_u64};
use vstd::prelude::*;

verus! {

/// Bitswap metadata.
#[derive(Clone, Copy, Debug, PartialEq, Eq, Structural)]
pub struct Prefix {
    /// CID version.
    pub version: Version,
    /// CID codec.
    pub codec: u64,
    /// CID multihash type.
    pub multihash_type: u64,
    /// CID multihash length.
    pub multihash_len: u8,
}

/// The bytes of a prefix: its four numbers, one after the other.
pub open spec fn prefix_bytes(prefix: Prefix) -> Seq<u8> {
    varint::varint(prefix.version.spec_number() as nat) + varint::varint(prefix.codec as nat)
        + varint::varint(prefix.multihash_type as nat) + varint::varint(prefix.multihash_len as nat)
}

/// Four numbers that `bytes` consist of.
pub open spec fn four_numbers(bytes: Seq<u8>) -> Option<(u64, u64, u64, u64)> {
    match varint::varint_decoded(bytes) {
        Some((a, rest)) => match varint::varint_decoded(rest) {
            Some((b, rest)) => match varint::varint_decoded(rest) {
                Some((c, rest)) => match varint::varint_decoded(rest) {
                    Some((d, rest)) => if rest.len() == 0 {
                        Some((a, b, c, d))
                    } else {
                        None
                    },
                    None => None,
                },
                None => None,
            },
            None => None,
        },
        None => None,
    }
}

/// The prefix that bytes stand for: they are four numbers, of which the first is a version and the
/// last fits into a byte.
pub open spec fn prefix_parsed(bytes: Seq<u8>) -> Option<Prefix> {
    match four_numbers(bytes) {
        Some((version, codec, multihash_type, multihash_len)) => if version <= 1 && multihash_len
            <= u8::MAX {
            Some(
                Prefix {
                    version: if version == 0 {
                        Version::V0
                    } else {
                        Version::V1
                    },
                    codec,
                    multihash_type,
                    multihash_len: multihash_len as u8,
                },
            )
        } else {
            None
        },
        None => None,
    }
}

impl Prefix {
    /// Convert the prefix to encoded bytes.
    pub fn to_bytes(&self) -> (r: Vec<u8>)
        ensures
            r@ == prefix_bytes(*self),
    {
        let mut res = encode_u64(self.version.number());
        let mut codec = encode_u64(self.codec);
        let mut multihash_type = encode_u64(self.multihash_type);
        let mut multihash_len = encode_u64(self.multihash_len as u64);
        res.append(&mut codec);
        res.append(&mut multihash_type);
        res.append(&mut multihash_len);
        assert(res@ =~= prefix_bytes(*self));
        res
    }

    /// Parse byte representation of prefix.
    pub fn from_bytes(prefix_bytes: &[u8]) -> (r: Option<Prefix>)
        ensures
            r == prefix_parsed(prefix_bytes@),
    {
        let (version, rest) = match decode_u64(prefix_bytes) {
            Some(decoded) => decoded,
            None => {
                return None;
            },
        };
        let (codec, rest) = match decode_u64(rest) {
            Some(decoded) => decoded,
            None => {
                return None;
            },
        };
        let (multihash_type, rest) = match decode_u64(rest) {
            Some(decoded) => decoded,
            None => {
                return None;
            },
        };
        let (multihash_len, rest) = match decode_u64(rest) {
            Some(decoded) => decoded,
            None => {
                return None;
            },
        };
        if rest.len() != 0 {
            return None;
        }
        match Version::from_number(version) {
            Some(version) => if multihash_len <= u8::MAX as u64 {
                Some(
                    Prefix { version, codec, multihash_type, multihash_len: multihash_len as u8 },
                )
            } else {
                None
            },
            None => None,
        }
    }
}

/// Parsing what was written gives the prefix back.
pub proof fn law_prefix_round_trip(prefix: Prefix)
    ensures
        prefix_parsed(prefix_bytes(prefix)) == Some(prefix),
{
    let a = varint::varint(prefix.version.spec_number() as nat);
    let b = varint::varint(prefix.codec as nat);
    let c = varint::varint(prefix.multihash_type as nat);
    let d = varint::varint(prefix.multihash_len as nat);
    let none = Seq::<u8>::empty();
    varint::law_varint_round_trip(prefix.version.spec_number(), b + (c + (d + none)));
    varint::law_varint_round_trip(prefix.codec, c + (d + none));
    varint::law_varint_round_trip(prefix.multihash_type, d + none);
    varint::law_varint_round_trip(prefix.multihash_len as u64, none);
    assert(prefix_bytes(prefix) =~= a + (b + (c + (d + none))));
}

/// On the wire a prefix is its version, its codec, its hash function and the length of its digest,
/// in this order and nothing else.
pub proof fn law_prefix_on_wire(prefix: Prefix)
    ensures
        varint::varint_decoded(prefix_bytes(prefix)) matches Some((version, rest)) && version == (
        if prefix.version is V0 {
            0u64
        } else {
            1u64
        }) && (varint::varint_decoded(rest) matches Some((codec, rest)) && codec == prefix.codec && (
        varint::varint_decoded(rest) matches Some((multihash_type, rest)) && multihash_type
            == prefix.multihash_type && (varint::varint_decoded(rest) matches Some((len, rest))
            && len == prefix.multihash_len && rest.len() == 0))),
{
    let a = varint::varint(prefix.version.spec_number() as nat);
    let b = varint::varint(prefix.codec as nat);
    let c = varint::varint(prefix.multihash_type as nat);
    let d = varint::varint(prefix.multihash_len as nat);
    let none = Seq::<u8>::empty();
    varint::law_varint_round_trip(prefix.version.spec_number(), b + (c + (d + none)));
    varint::law_varint_round_trip(prefix.codec, c + (d + none));
    varint::law_varint_round_trip(prefix.multihash_type, d + none);
    varint::law_varint_round_trip(prefix.multihash_len as u64, none);
    assert(prefix_bytes(prefix) =~= a + (b + (c + (d + none))));
}

} // verus!
