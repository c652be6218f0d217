//! Records and providers.

use super::types;
use super::types::{Distance, Key};
use crate::address;
use crate::address::{copy_addresses, Multiaddr};
use crate::collections::MapKey;
use crate::peer_id::PeerId;
use crate::time::Instant;
use crate::types::{copy_bytes, same_bytes};
use vstd::prelude::*;

verus! {

/// The key of a record.
#[derive(Debug, PartialEq, Eq)]
pub struct RecordKey {
    bytes: Vec<u8>,
}

impl View for RecordKey {
    type V = Seq<u8>;

    closed spec fn view(&self) -> Seq<u8> {
        self.bytes@
    }
}

impl MapKey for RecordKey {
    fn same(&self, other: &Self) -> (r: bool) {
        same_bytes(&self.bytes, &other.bytes)
    }
}

impl Clone for RecordKey {
    fn clone(&self) -> (r: Self)
        ensures
            r@ == self@,
    {
        RecordKey { bytes: copy_bytes(&self.bytes) }
    }
}

impl RecordKey {
    /// The key with the given bytes.
    pub fn from_bytes(bytes: Vec<u8>) -> (r: Self)
        ensures
            r@ == bytes@,
    {
        RecordKey { bytes }
    }

    /// The bytes of the key.
    pub fn as_bytes(&self) -> (r: &Vec<u8>)
        ensures
            r@ == self@,
    {
        &self.bytes
    }

    /// The bytes of the key.
    pub fn to_vec(&self) -> (r: Vec<u8>)
        ensures
            r@ == self@,
    {
        copy_bytes(&self.bytes)
    }
}

/// A record of the distributed hash table.
#[derive(Debug, PartialEq, Eq)]
pub struct Record {
    /// Key of the record.
    pub key: RecordKey,
    /// Value of the record.
    pub value: Vec<u8>,
    /// The (original) publisher of the record.
    pub publisher: Option<PeerId>,
    /// The expiration time as measured by the local clock.
    pub expires: Option<Instant>,
}

/// A record, with key and value by their views.
pub struct RecordView {
    /// Key of the record.
    pub key: Seq<u8>,
    /// Value of the record.
    pub value: Seq<u8>,
    /// The publisher of the record.
    pub publisher: Option<PeerId>,
    /// The expiration time.
    pub expires: Option<Instant>,
}

impl RecordView {
    /// Whether the record has expired at `now`.
    pub open spec fn expired(self, now: Instant) -> bool {
        self.expires matches Some(expires) && now.nanos >= expires.nanos
    }
}

impl View for Record {
    type V = RecordView;

    open spec fn view(&self) -> RecordView {
        RecordView {
            key: self.key@,
            value: self.value@,
            publisher: self.publisher,
            expires: self.expires,
        }
    }
}

impl MapKey for Record {
    fn same(&self, other: &Self) -> (r: bool) {
        let publisher = match (&self.publisher, &other.publisher) {
            (Some(a), Some(b)) => a.same(b),
            (None, None) => true,
            _ => false,
        };
        let expires = match (&self.expires, &other.expires) {
            (Some(a), Some(b)) => a.nanos == b.nanos,
            (None, None) => true,
            _ => false,
        };
        publisher && expires && self.key.same(&other.key) && same_bytes(
            &self.value,
            &other.value,
        )
    }
}

impl Clone for Record {
    fn clone(&self) -> (r: Self)
        ensures
            r@ == self@,
    {
        Record {
            key: self.key.clone(),
            value: copy_bytes(&self.value),
            publisher: self.publisher,
            expires: self.expires,
        }
    }
}

impl Record {
    /// Creates a new record for insertion into the DHT.
    pub fn new(key: RecordKey, value: Vec<u8>) -> (r: Self)
        ensures
            r.key == key,
            r.value == value,
            r.publisher is None,
            r.expires is None,
    {
        Record { key, value, publisher: None, expires: None }
    }

    /// Checks whether the record is expired w.r.t. the given `Instant`.
    pub fn is_expired(&self, now: Instant) -> (r: bool)
        ensures
            r == self@.expired(now),
    {
        match self.expires {
            Some(expires) => now.nanos >= expires.nanos,
            None => false,
        }
    }
}

/// A record, and the peer that it came from.
#[derive(Debug, PartialEq, Eq)]
pub struct PeerRecord {
    /// The peer from whom the record was received.
    pub peer: PeerId,
    /// The provided record.
    pub record: Record,
}

/// A peer that provides the content under a key.
#[derive(Debug, PartialEq, Eq)]
pub struct ProviderRecord {
    /// Key of the content.
    pub key: RecordKey,
    /// The peer that provides the content.
    pub provider: PeerId,
    /// Cached addresses of the provider.
    pub addresses: Vec<Multiaddr>,
    /// The expiration time of the record.
    pub expires: Instant,
}

/// A provider record, with key and addresses by their views.
pub struct ProviderView {
    /// Key of the content.
    pub key: Seq<u8>,
    /// The peer that provides the content.
    pub provider: PeerId,
    /// Cached addresses of the provider.
    pub addresses: Seq<Seq<u8>>,
    /// The expiration time of the record.
    pub expires: Instant,
}

impl ProviderView {
    /// Whether the record has expired at `now`.
    pub open spec fn expired(self, now: Instant) -> bool {
        now.nanos >= self.expires.nanos
    }

    /// The distance of the provider to the key, as a number.
    pub open spec fn distance(self) -> nat {
        provider_distance(self.key, self.provider)
    }
}

/// The distance between where `peer` and where `key` are hashed to, as a number.
pub open spec fn provider_distance(key: Seq<u8>, peer: PeerId) -> nat {
    types::xor_distance(types::place_of(peer.spec_bytes()), types::place_of(key)).value()
}

impl View for ProviderRecord {
    type V = ProviderView;

    open spec fn view(&self) -> ProviderView {
        ProviderView {
            key: self.key@,
            provider: self.provider,
            addresses: address::address_views(self.addresses@),
            expires: self.expires,
        }
    }
}

impl Clone for ProviderRecord {
    fn clone(&self) -> (r: Self)
        ensures
            r@ == self@,
    {
        ProviderRecord {
            key: self.key.clone(),
            provider: self.provider,
            addresses: copy_addresses(&self.addresses),
            expires: self.expires,
        }
    }
}

impl ProviderRecord {
    /// Checks whether the provider record is expired w.r.t. the given `Instant`.
    pub fn is_expired(&self, now: Instant) -> (r: bool)
        ensures
            r == self@.expired(now),
    {
        now.nanos >= self.expires.nanos
    }

    /// The distance between the provider and the key of the content.
    pub fn distance(&self) -> (r: Distance)
        ensures
            r.value() == self@.distance(),
    {
        let peer = Key::from_peer(self.provider);
        let key = Key::new(self.key.clone());
        peer.distance(&key)
    }
}

/// A peer that provides some content.
#[derive(Debug, PartialEq, Eq)]
pub struct ContentProvider {
    /// Peer ID of the provider.
    pub peer: PeerId,
    /// Cached addresses of the provider.
    pub addresses: Vec<Multiaddr>,
}

} // verus!
