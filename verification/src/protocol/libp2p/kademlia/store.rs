//! Memory store implementation for Kademlia.

use super::record::{ProviderRecord, ProviderView, Record, RecordKey, RecordView};
use super::types::Distance;
use crate::collections;
use crate::collections::AssocMap;
use crate::time::Instant;
use vstd::prelude::*;

verus! {

/// Configuration of the memory store.
#[derive(Clone, Copy, Debug, PartialEq, Eq, Structural)]
pub struct MemoryStoreConfig {
    /// Maximum number of records to store.
    pub max_records: usize,
    /// Maximum size of a record in bytes.
    pub max_record_size_bytes: usize,
    /// Maximum number of provider keys this node stores.
    pub max_provider_keys: usize,
    /// Maximum number of cached addresses per provider.
    pub max_provider_addresses: usize,
    /// Maximum number of providers per key. Only providers with peer IDs closest to the key are
    /// kept.
    pub max_providers_per_key: usize,
}

impl Default for MemoryStoreConfig {
    fn default() -> (r: Self)
        ensures
            r.max_records == 1024,
            r.max_record_size_bytes == 65 * 1024,
            r.max_provider_keys == 1024,
            r.max_provider_addresses == 30,
            r.max_providers_per_key == 20,
    {
        MemoryStoreConfig {
            max_records: 1024,
            max_record_size_bytes: 65 * 1024,
            max_provider_keys: 1024,
            max_provider_addresses: 30,
            max_providers_per_key: 20,
        }
    }
}

/// The contents of the store.
pub struct StoreView {
    /// Records.
    pub records: Map<Seq<u8>, RecordView>,
    /// Provider records.
    pub providers: Map<Seq<u8>, Seq<ProviderView>>,
}

/// Where a provider at distance `d` belongs: before the first one that is not closer.
pub open spec fn position(providers: Seq<ProviderView>, d: nat) -> int
    decreases providers.len(),
{
    if providers.len() == 0 || providers[0].distance() >= d {
        0
    } else {
        1 + position(providers.skip(1), d)
    }
}

/// Whether some provider is at distance `d`, in the place where one belongs.
pub open spec fn occupied(providers: Seq<ProviderView>, d: nat) -> bool {
    let i = position(providers, d);
    i < providers.len() && providers[i].distance() == d
}

/// Whether a provider at distance `d` is taken in.
pub open spec fn accepts(providers: Seq<ProviderView>, d: nat, max: usize) -> bool {
    occupied(providers, d) || position(providers, d) != max
}

/// The providers after one that is taken in. Where there is one at the same distance it is
/// replaced; where there is no room the last one makes place.
pub open spec fn with_provider(
    providers: Seq<ProviderView>,
    provider: ProviderView,
    max: usize,
) -> Seq<ProviderView> {
    let i = position(providers, provider.distance());
    if occupied(providers, provider.distance()) {
        providers.update(i, provider)
    } else if i == max {
        providers
    } else if providers.len() == max {
        providers.drop_last().insert(i, provider)
    } else {
        providers.insert(i, provider)
    }
}

/// A provider with no more than `max` addresses.
pub open spec fn truncated(provider: ProviderView, max: usize) -> ProviderView {
    ProviderView {
        addresses: if provider.addresses.len() <= max {
            provider.addresses
        } else {
            provider.addresses.take(max as int)
        },
        ..provider
    }
}

/// Providers are sorted by their distance to the key, and no two are at the same distance.
pub open spec fn sorted(providers: Seq<ProviderView>) -> bool {
    forall|i: int, j: int|
        0 <= i < j < providers.len() ==> (#[trigger] providers[i]).distance() < (
        #[trigger] providers[j]).distance()
}

/// Whether the providers of `key` are as they may be: there is at least one and there are no more than
/// allowed, they are sorted by distance, and each is one of the key and has no more addresses than
/// allowed.
pub open spec fn providers_within(
    providers: Seq<ProviderView>,
    key: Seq<u8>,
    config: MemoryStoreConfig,
) -> bool {
    &&& 0 < providers.len() <= config.max_providers_per_key
    &&& sorted(providers)
    &&& forall|i: int|
        0 <= i < providers.len() ==> (#[trigger] providers[i]).key == key
            && providers[i].addresses.len() <= config.max_provider_addresses
}

/// The providers that have not expired.
pub open spec fn live(providers: Seq<ProviderView>, now: Instant) -> Seq<ProviderView> {
    providers.filter(|p: ProviderView| !p.expired(now))
}

impl StoreView {
    /// Whether the store keeps within its limits.
    pub open spec fn within(self, config: MemoryStoreConfig) -> bool {
        &&& self.records.dom().finite()
        &&& self.records.len() <= config.max_records
        &&& forall|key: Seq<u8>| #[trigger]
            self.records.contains_key(key) ==> self.records[key].key == key
                && self.records[key].value.len() < config.max_record_size_bytes
        &&& self.providers.dom().finite()
        &&& self.providers.len() <= config.max_provider_keys
        &&& forall|key: Seq<u8>| #[trigger]
            self.providers.contains_key(key) ==> providers_within(self.providers[key], key, config)
    }

    /// Whether a record is taken in: it is small enough, and the store either holds one under its
    /// key that does not outlive it, or has room for another key.
    pub open spec fn takes(self, config: MemoryStoreConfig, record: RecordView) -> bool {
        &&& record.value.len() < config.max_record_size_bytes
        &&& if self.records.contains_key(record.key) {
            match (self.records[record.key].expires, record.expires) {
                (Some(stored), Some(new)) => stored.nanos <= new.nanos,
                _ => true,
            }
        } else {
            self.records.len() < config.max_records
        }
    }

    /// After a record has been offered.
    pub open spec fn put(self, config: MemoryStoreConfig, record: RecordView) -> Self {
        if self.takes(config, record) {
            StoreView { records: self.records.insert(record.key, record), ..self }
        } else {
            self
        }
    }

    /// Whether the record under `key` has expired at `now`.
    pub open spec fn record_expired(self, key: Seq<u8>, now: Instant) -> bool {
        self.records.contains_key(key) && self.records[key].expired(now)
    }

    /// After the record under `key` has been asked for at `now`: it is gone if it has expired.
    pub open spec fn after_get(self, key: Seq<u8>, now: Instant) -> Self {
        if self.record_expired(key, now) {
            StoreView { records: self.records.remove(key), ..self }
        } else {
            self
        }
    }

    /// The record under `key` at `now`.
    pub open spec fn get(self, key: Seq<u8>, now: Instant) -> Option<RecordView> {
        if self.records.contains_key(key) && !self.records[key].expired(now) {
            Some(self.records[key])
        } else {
            None
        }
    }

    /// The providers under `key`.
    pub open spec fn providers_of(self, key: Seq<u8>) -> Seq<ProviderView> {
        if self.providers.contains_key(key) {
            self.providers[key]
        } else {
            Seq::empty()
        }
    }

    /// After the providers under `key` have been asked for at `now`: those that have expired are
    /// gone, and so is a key without any.
    pub open spec fn after_get_providers(self, key: Seq<u8>, now: Instant) -> Self {
        if self.providers.contains_key(key) {
            let rest = live(self.providers[key], now);
            StoreView {
                providers: if rest.len() == 0 {
                    self.providers.remove(key)
                } else {
                    self.providers.insert(key, rest)
                },
                ..self
            }
        } else {
            self
        }
    }

    /// Whether a provider is taken in.
    pub open spec fn takes_provider(self, config: MemoryStoreConfig, provider: ProviderView) -> bool {
        if self.providers.contains_key(provider.key) {
            accepts(
                self.providers[provider.key],
                provider.distance(),
                config.max_providers_per_key,
            )
        } else {
            self.providers.len() < config.max_provider_keys && config.max_providers_per_key > 0
        }
    }

    /// After a provider has been offered.
    pub open spec fn put_provider(self, config: MemoryStoreConfig, provider: ProviderView) -> Self {
        let record = truncated(provider, config.max_provider_addresses);
        if !self.takes_provider(config, provider) {
            self
        } else if self.providers.contains_key(provider.key) {
            StoreView {
                providers: self.providers.insert(
                    provider.key,
                    with_provider(
                        self.providers[provider.key],
                        record,
                        config.max_providers_per_key,
                    ),
                ),
                ..self
            }
        } else {
            StoreView { providers: self.providers.insert(provider.key, seq![record]), ..self }
        }
    }

    /// After providers have been offered one by one.
    pub open spec fn put_providers(
        self,
        config: MemoryStoreConfig,
        providers: Seq<ProviderView>,
    ) -> Self
        decreases providers.len(),
    {
        if providers.len() == 0 {
            self
        } else {
            self.put_providers(config, providers.drop_last()).put_provider(config, providers.last())
        }
    }
}

/// A record by its view.
pub open spec fn record_view(record: Record) -> RecordView {
    record@
}

/// The views of a list of providers.
pub open spec fn provider_views(providers: Seq<ProviderRecord>) -> Seq<ProviderView> {
    Seq::new(providers.len(), |i: int| providers[i]@)
}

/// A list of providers by its views.
pub open spec fn list_views(providers: Vec<ProviderRecord>) -> Seq<ProviderView> {
    provider_views(providers@)
}

/// Memory store.
pub struct MemoryStore {
    /// Records.
    records: AssocMap<RecordKey, Record>,
    /// Provider records.
    provider_keys: AssocMap<RecordKey, Vec<ProviderRecord>>,
    /// Configuration.
    config: MemoryStoreConfig,
}

impl View for MemoryStore {
    type V = StoreView;

    closed spec fn view(&self) -> StoreView {
        StoreView {
            records: self.records@.map_values(|r: Record| record_view(r)),
            providers: self.provider_keys@.map_values(|p: Vec<ProviderRecord>| list_views(p)),
        }
    }
}

/// Where a provider at distance `d` belongs, and whether there is one at that distance.
fn search(providers: &Vec<ProviderRecord>, d: &Distance) -> (r: (usize, bool))
    ensures
        r.0 == position(provider_views(providers@), d.value()),
        r.0 <= providers@.len(),
        r.1 == occupied(provider_views(providers@), d.value()),
{
    let ghost views = provider_views(providers@);
    let mut i: usize = 0;
    assert(views.skip(0) =~= views);
    while i < providers.len()
        invariant
            i <= providers.len(),
            views == provider_views(providers@),
            position(views, d.value()) == i + position(views.skip(i as int), d.value()),
        decreases providers.len() - i,
    {
        let distance = providers[i].distance();
        assert(views.skip(i as int)[0] == views[i as int]);
        if !distance.less_than(d) {
            return (i, !d.less_than(&distance));
        }
        assert(views.skip(i as int).skip(1) =~= views.skip(i + 1));
        i += 1;
    }
    (i, false)
}

fn retain_live(providers: Vec<ProviderRecord>, now: Instant) -> (r: Vec<ProviderRecord>)
    ensures
        provider_views(r@) == live(provider_views(providers@), now),
{
    let ghost all = provider_views(providers@);
    let ghost keep = |p: ProviderView| !p.expired(now);
    let mut rest = providers;
    let mut r: Vec<ProviderRecord> = Vec::new();
    let mut done: Ghost<int> = Ghost(0);
    proof {
        reveal(Seq::filter);
        assert(all.take(0) =~= Seq::<ProviderView>::empty());
        assert(provider_views(r@) =~= all.take(0).filter(keep));
        assert(all.skip(0) =~= all);
    }
    while rest.len() > 0
        invariant
            0 <= done@ <= all.len(),
            keep == (|p: ProviderView| !p.expired(now)),
            provider_views(rest@) == all.skip(done@),
            provider_views(r@) == all.take(done@).filter(keep),
        decreases rest.len(),
    {
        let ghost views = provider_views(rest@);
        let ghost before = provider_views(r@);
        assert(views.len() == rest.len());
        assert(all.skip(done@).len() == all.len() - done@);
        let provider = rest.remove(0);
        proof {
            reveal(Seq::filter);
            assert(views[0] == provider@);
            assert(all.take(done@ + 1).drop_last() =~= all.take(done@));
            assert(all.take(done@ + 1).last() == provider@);
            assert(provider_views(rest@) =~= all.skip(done@ + 1)) by {
                assert(provider_views(rest@) =~= views.skip(1));
            }
        }
        if !provider.is_expired(now) {
            r.push(provider);
            assert(provider_views(r@) =~= before.push(provider@));
        }
        proof {
            done@ = done@ + 1;
        }
    }
    assert(all.take(done@) =~= all) by {
        assert(all.skip(done@).len() == 0);
    }
    r
}

fn copy_providers(providers: &Vec<ProviderRecord>) -> (r: Vec<ProviderRecord>)
    ensures
        provider_views(r@) == provider_views(providers@),
{
    let mut r: Vec<ProviderRecord> = Vec::new();
    let mut i: usize = 0;
    while i < providers.len()
        invariant
            i <= providers.len(),
            r.len() == i,
            forall|j: int| 0 <= j < i ==> (#[trigger] r@[j])@ == providers@[j]@,
        decreases providers.len() - i,
    {
        r.push(providers[i].clone());
        i += 1;
    }
    assert(provider_views(r@) =~= provider_views(providers@));
    r
}

impl MemoryStore {
    /// The configuration.
    pub closed spec fn config(self) -> MemoryStoreConfig {
        self.config
    }

    /// Create new [`MemoryStore`].
    pub fn new() -> (r: Self)
        ensures
            r@.records == Map::<Seq<u8>, RecordView>::empty(),
            r@.providers == Map::<Seq<u8>, Seq<ProviderView>>::empty(),
            r.config().max_records == 1024,
            r.config().max_record_size_bytes == 65 * 1024,
            r.config().max_provider_keys == 1024,
            r.config().max_provider_addresses == 30,
            r.config().max_providers_per_key == 20,
            r@.within(r.config()),
    {
        MemoryStore::with_config(MemoryStoreConfig::default())
    }

    /// Create new [`MemoryStore`] with the provided configuration.
    pub fn with_config(config: MemoryStoreConfig) -> (r: Self)
        ensures
            r@.records == Map::<Seq<u8>, RecordView>::empty(),
            r@.providers == Map::<Seq<u8>, Seq<ProviderView>>::empty(),
            r.config() == config,
            r@.within(config),
    {
        let r = MemoryStore {
            records: AssocMap::new(),
            provider_keys: AssocMap::new(),
            config,
        };
        assert(r@.records =~= Map::<Seq<u8>, RecordView>::empty());
        assert(r@.providers =~= Map::<Seq<u8>, Seq<ProviderView>>::empty());
        r
    }

    /// The number of records.
    pub fn record_count(&self) -> (r: usize)
        ensures
            r == self@.records.len(),
            self@.records.dom().finite(),
    {
        let r: usize = self.records.len();
        assert(self@.records.dom() =~= self.records@.dom());
        r
    }

    /// The number of keys that have providers.
    pub fn provider_key_count(&self) -> (r: usize)
        ensures
            r == self@.providers.len(),
            self@.providers.dom().finite(),
    {
        let r: usize = self.provider_keys.len();
        assert(self@.providers.dom() =~= self.provider_keys@.dom());
        r
    }

    /// Try to get record from local store for `key`, at the current time.
    pub fn get(&mut self, key: &RecordKey) -> (r: Option<&Record>)
        ensures
            final(self).config() == old(self).config(),
            exists|now: Instant|
                {
                    &&& final(self)@ == #[trigger] old(self)@.after_get(key@, now)
                    &&& match r {
                        Some(record) => old(self)@.get(key@, now) == Some(record@),
                        None => old(self)@.get(key@, now) is None,
                    }
                },
            old(self)@.within(old(self).config()) ==> final(self)@.within(final(self).config()),
    {
        let now = Instant::now();
        self.get_at(key, now)
    }

    /// Try to get record from local store for `key`, at `now`.
    pub fn get_at(&mut self, key: &RecordKey, now: Instant) -> (r: Option<&Record>)
        ensures
            final(self).config() == old(self).config(),
            final(self)@ == old(self)@.after_get(key@, now),
            match r {
                Some(record) => old(self)@.get(key@, now) == Some(record@),
                None => old(self)@.get(key@, now) is None,
            },
            old(self)@.within(old(self).config()) ==> final(self)@.within(final(self).config()),
    {
        proof {
            if self@.within(self.config()) {
                law_get_keeps_limits(self@, self.config(), key@, now);
            }
        }
        let is_expired = match self.records.get(key) {
            Some(record) => record.is_expired(now),
            None => false,
        };
        if is_expired {
            proof {
                collections::lemma_map_values_remove(
                    self.records@,
                    |r: Record| record_view(r),
                    key@,
                );
            }
            let _ = self.records.remove(key);
            None
        } else {
            self.records.get(key)
        }
    }

    /// Store record.
    ///
    /// A record that is too large is discarded, as is one under a new key where the store is full.
    /// A record that outlives the new one under the same key stays.
    pub fn put(&mut self, record: Record)
        ensures
            final(self).config() == old(self).config(),
            final(self)@ == old(self)@.put(old(self).config(), record@),
            old(self)@.within(old(self).config()) ==> final(self)@.within(final(self).config()),
    {
        proof {
            if self@.within(self.config()) {
                law_put_keeps_limits(self@, self.config(), record@);
            }
        }
        if record.value.len() >= self.config.max_record_size_bytes {
            return;
        }
        let len: usize = self.record_count();
        let keep = match self.records.get(&record.key) {
            Some(stored) => match (stored.expires, record.expires) {
                // Lean towards the new record.
                (Some(stored_ttl), Some(new_ttl)) => stored_ttl.nanos > new_ttl.nanos,
                _ => false,
            },
            None => len >= self.config.max_records,
        };
        if keep {
            return;
        }
        proof {
            collections::lemma_map_values_insert(
                self.records@,
                |r: Record| record_view(r),
                record.key@,
                record,
            );
        }
        let key = record.key.clone();
        self.records.insert(key, record);
    }

    /// Try to get providers from local store for `key`, at the current time.
    ///
    /// Returns a non-empty list of providers, if any.
    pub fn get_providers(&mut self, key: &RecordKey) -> (r: Vec<ProviderRecord>)
        ensures
            final(self).config() == old(self).config(),
            exists|now: Instant|
                {
                    &&& final(self)@ == #[trigger] old(self)@.after_get_providers(key@, now)
                    &&& provider_views(r@) == live(old(self)@.providers_of(key@), now)
                },
            old(self)@.within(old(self).config()) ==> final(self)@.within(final(self).config()),
    {
        let now = Instant::now();
        self.get_providers_at(key, now)
    }

    /// Try to get providers from local store for `key`, at `now`.
    pub fn get_providers_at(&mut self, key: &RecordKey, now: Instant) -> (r: Vec<ProviderRecord>)
        ensures
            final(self).config() == old(self).config(),
            final(self)@ == old(self)@.after_get_providers(key@, now),
            provider_views(r@) == live(old(self)@.providers_of(key@), now),
            old(self)@.within(old(self).config()) ==> final(self)@.within(final(self).config()),
    {
        proof {
            if self@.within(self.config()) {
                law_get_keeps_limits(self@, self.config(), key@, now);
            }
        }
        let ghost before = self.provider_keys@;
        proof {
            collections::lemma_map_values_remove(
                before,
                |p: Vec<ProviderRecord>| list_views(p),
                key@,
            );
        }
        match self.provider_keys.remove(key) {
            Some(providers) => {
                let rest = retain_live(providers, now);
                let copy = copy_providers(&rest);
                if rest.len() > 0 {
                    proof {
                        collections::lemma_map_values_insert(
                            self.provider_keys@,
                            |p: Vec<ProviderRecord>| list_views(p),
                            key@,
                            rest,
                        );
                    }
                    self.provider_keys.insert(key.clone(), rest);
                    assert(self@.providers =~= old(self)@.after_get_providers(
                        key@,
                        now,
                    ).providers);
                }
                copy
            },
            None => {
                proof {
                    assert(before.remove(key@) =~= before);
                    reveal(Seq::filter);
                }
                let r: Vec<ProviderRecord> = Vec::new();
                assert(provider_views(r@) =~= live(Seq::empty(), now));
                r
            },
        }
    }

    /// Try to add a provider for `key`. If there are already `max_providers_per_key` for
    /// this `key`, the new provider is only inserted if its closer to `key` than
    /// the furthest already inserted provider. The furthest provider is then discarded.
    ///
    /// Returns `true` if the provider was added, `false` otherwise.
    pub fn put_provider(&mut self, provider_record: ProviderRecord) -> (r: bool)
        ensures
            final(self).config() == old(self).config(),
            r == old(self)@.takes_provider(old(self).config(), provider_record@),
            final(self)@ == old(self)@.put_provider(old(self).config(), provider_record@),
            old(self)@.within(old(self).config()) ==> final(self)@.within(final(self).config()),
    {
        proof {
            if self@.within(self.config()) {
                law_put_provider_keeps_limits(self@, self.config(), provider_record@);
            }
        }
        let ghost offered = provider_record@;
        let mut record = provider_record;
        record.addresses.truncate(self.config.max_provider_addresses);
        assert(record@.addresses =~= truncated(
            offered,
            self.config.max_provider_addresses,
        ).addresses);
        let ghost entry = record@;
        let can_insert_new_key = self.provider_key_count() < self.config.max_provider_keys
            && self.config.max_providers_per_key > 0;
        let key = record.key.clone();
        let ghost before = self.provider_keys@;
        if !self.provider_keys.contains_key(&key) {
            if can_insert_new_key {
                let mut providers: Vec<ProviderRecord> = Vec::new();
                providers.push(record);
                assert(provider_views(providers@) =~= seq![entry]);
                proof {
                    collections::lemma_map_values_insert(
                        before,
                        |p: Vec<ProviderRecord>| list_views(p),
                        key@,
                        providers,
                    );
                }
                self.provider_keys.insert(key, providers);
                return true;
            }
            return false;
        }
        match self.provider_keys.remove(&key) {
            Some(mut providers) => {
                let ghost views = provider_views(providers@);
                let distance = record.distance();
                let (i, found) = search(&providers, &distance);
                let max: usize = self.config.max_providers_per_key;
                let added = if found {
                    providers[i] = record;
                    assert(provider_views(providers@) =~= views.update(i as int, entry));
                    true
                } else if i == max {
                    false
                } else {
                    if providers.len() == max {
                        proof {
                            assert(i < max);
                        }
                        let _ = providers.pop();
                        assert(provider_views(providers@) =~= views.drop_last());
                    }
                    let ghost shorter = provider_views(providers@);
                    providers.insert(i, record);
                    assert(provider_views(providers@) =~= shorter.insert(i as int, entry));
                    true
                };
                proof {
                    collections::lemma_map_values_remove(
                        before,
                        |p: Vec<ProviderRecord>| list_views(p),
                        key@,
                    );
                    collections::lemma_map_values_insert(
                        before.remove(key@),
                        |p: Vec<ProviderRecord>| list_views(p),
                        key@,
                        providers,
                    );
                }
                self.provider_keys.insert(key, providers);
                assert(self@.providers =~= old(self)@.put_provider(
                    old(self).config(),
                    offered,
                ).providers);
                added
            },
            None => {
                assert(false);
                false
            },
        }
    }
}

/// A record that is taken in is what the store gives back, until it expires.
pub proof fn law_put_then_get(
    view: StoreView,
    config: MemoryStoreConfig,
    record: RecordView,
    now: Instant,
)
    requires
        view.takes(config, record),
        !record.expired(now),
    ensures
        view.put(config, record).get(record.key, now) == Some(record),
{
}

/// Putting a record touches no other key, and asking for one neither.
pub proof fn law_records_independent(
    view: StoreView,
    config: MemoryStoreConfig,
    record: RecordView,
    key: Seq<u8>,
    asked: Seq<u8>,
    now: Instant,
    later: Instant,
)
    requires
        key != record.key,
        key != asked,
    ensures
        view.put(config, record).get(key, now) == view.get(key, now),
        view.after_get(asked, later).get(key, now) == view.get(key, now),
{
}

/// What the store gives back has not expired.
pub proof fn law_expired_not_returned(view: StoreView, key: Seq<u8>, now: Instant)
    ensures
        view.get(key, now) matches Some(record) ==> !record.expired(now),
        forall|i: int|
            0 <= i < live(view.providers_of(key), now).len() ==> !(#[trigger] live(
                view.providers_of(key),
                now,
            )[i]).expired(now),
{
    let all = view.providers_of(key);
    let keep = |p: ProviderView| !p.expired(now);
    assert forall|i: int| 0 <= i < live(all, now).len() implies !(#[trigger] live(
        all,
        now,
    )[i]).expired(now) by {
        broadcast use vstd::seq_lib::group_filter_ensures;

        assert(keep(live(all, now)[i]));
    }
}

/// The store never holds more records than it may.
pub proof fn law_records_bounded(
    view: StoreView,
    config: MemoryStoreConfig,
    record: RecordView,
    key: Seq<u8>,
    now: Instant,
)
    requires
        view.records.dom().finite(),
        view.records.len() <= config.max_records,
    ensures
        view.put(config, record).records.len() <= config.max_records,
        view.after_get(key, now).records.len() <= config.max_records,
{
    if view.records.contains_key(record.key) {
        assert(view.records.insert(record.key, record).dom() =~= view.records.dom());
    }
}

/// No record is as large as the limit.
pub proof fn law_record_size_bounded(
    view: StoreView,
    config: MemoryStoreConfig,
    record: RecordView,
    key: Seq<u8>,
)
    requires
        view.records.contains_key(key) ==> view.records[key].value.len()
            < config.max_record_size_bytes,
        view.put(config, record).records.contains_key(key),
    ensures
        view.put(config, record).records[key].value.len() < config.max_record_size_bytes,
{
}

proof fn lemma_position(providers: Seq<ProviderView>, d: nat)
    ensures
        0 <= position(providers, d) <= providers.len(),
        forall|i: int|
            0 <= i < position(providers, d) ==> (#[trigger] providers[i]).distance() < d,
        position(providers, d) < providers.len() ==> providers[position(
            providers,
            d,
        )].distance() >= d,
    decreases providers.len(),
{
    if providers.len() > 0 && providers[0].distance() < d {
        let rest = providers.skip(1);
        lemma_position(rest, d);
        let p = position(providers, d);
        assert forall|i: int| 0 <= i < p implies (#[trigger] providers[i]).distance() < d by {
            if i > 0 {
                assert(providers[i] == rest[i - 1]);
            }
        }
        if p < providers.len() {
            assert(providers[p] == rest[p - 1]);
        }
    }
}

/// The providers of a key stay sorted by distance, and there are never more than allowed.
pub proof fn law_providers_sorted_and_bounded(
    providers: Seq<ProviderView>,
    provider: ProviderView,
    max: usize,
)
    requires
        sorted(providers),
        providers.len() <= max,
    ensures
        sorted(with_provider(providers, provider, max)),
        with_provider(providers, provider, max).len() <= max,
{
    let d = provider.distance();
    let i = position(providers, d);
    lemma_position(providers, d);
    let after = with_provider(providers, provider, max);
    if occupied(providers, d) {
        assert forall|a: int, b: int| 0 <= a < b < after.len() implies (
        #[trigger] after[a]).distance() < (#[trigger] after[b]).distance() by {
            assert(providers[a].distance() < providers[b].distance());
        }
    } else if i != max {
        let base = if providers.len() == max {
            providers.drop_last()
        } else {
            providers
        };
        assert forall|k: int| 0 <= k < after.len() implies #[trigger] after[k] == (if k < i {
            providers[k]
        } else if k == i {
            provider
        } else {
            providers[k - 1]
        }) by {}
        assert forall|k: int| i <= k < providers.len() implies d < (
        #[trigger] providers[k]).distance() by {
            if k > i {
                assert(providers[i].distance() < providers[k].distance());
            }
        }
        assert forall|a: int, b: int| 0 <= a < b < after.len() implies (
        #[trigger] after[a]).distance() < (#[trigger] after[b]).distance() by {
            let a2 = if a < i { a } else { a - 1 };
            let b2 = if b < i { b } else { b - 1 };
            if a != i && b != i {
                assert(providers[a2].distance() < providers[b2].distance());
            } else if a == i {
                assert(d < providers[b2].distance());
            } else {
                assert(providers[a2].distance() < d);
            }
        }
    }
}

/// Where there is no room, a provider that is farther than all others is turned away, and one that
/// is closer than some takes the place of the farthest.
pub proof fn law_furthest_provider_discarded(
    providers: Seq<ProviderView>,
    provider: ProviderView,
    max: usize,
)
    requires
        sorted(providers),
        providers.len() == max,
        max > 0,
        forall|i: int|
            0 <= i < providers.len() ==> (#[trigger] providers[i]).distance()
                != provider.distance(),
    ensures
        accepts(providers, provider.distance(), max) <==> provider.distance()
            < providers.last().distance(),
        !accepts(providers, provider.distance(), max) ==> with_provider(providers, provider, max)
            == providers,
        accepts(providers, provider.distance(), max) ==> {
            let after = with_provider(providers, provider, max);
            &&& after.len() == max
            &&& after.contains(provider)
            &&& forall|i: int|
                0 <= i < providers.len() - 1 ==> after.contains(#[trigger] providers[i])
        },
{
    let d = provider.distance();
    let p = position(providers, d);
    lemma_position(providers, d);
    let n = providers.len() as int;
    assert(!occupied(providers, d));
    if p < n {
        if p < n - 1 {
            assert(providers[p].distance() < providers[n - 1].distance());
        }
        let after = with_provider(providers, provider, max);
        assert(after[p] == provider);
        assert forall|i: int| 0 <= i < n - 1 implies after.contains(#[trigger] providers[i]) by {
            if i < p {
                assert(after[i] == providers[i]);
            } else {
                assert(after[i + 1] == providers[i]);
            }
        }
    } else {
        assert(providers[n - 1].distance() < d);
    }
}

/// No key ever has more providers than allowed, whatever is offered.
pub proof fn law_providers_per_key_bounded(
    view: StoreView,
    config: MemoryStoreConfig,
    provider: ProviderView,
    key: Seq<u8>,
)
    requires
        view.providers_of(key).len() <= config.max_providers_per_key,
        sorted(view.providers_of(key)),
    ensures
        view.put_provider(config, provider).providers_of(key).len() <= config.max_providers_per_key,
        sorted(view.put_provider(config, provider).providers_of(key)),
{
    if key == provider.key && view.providers.contains_key(key) {
        law_providers_sorted_and_bounded(
            view.providers[key],
            truncated(provider, config.max_provider_addresses),
            config.max_providers_per_key,
        );
    }
}

/// The first of `providers`, no more than `max`.
pub open spec fn first_providers(providers: Seq<ProviderView>, max: usize) -> Seq<ProviderView> {
    if providers.len() <= max {
        providers
    } else {
        providers.take(max as int)
    }
}

/// Providers with no more than `max` addresses each.
pub open spec fn all_truncated(providers: Seq<ProviderView>, max: usize) -> Seq<ProviderView> {
    Seq::new(providers.len(), |i: int| truncated(providers[i], max))
}

proof fn lemma_closest_with(ascending: Seq<ProviderView>, j: int, max: usize)
    requires
        sorted(ascending),
        0 <= j < ascending.len(),
    ensures
        with_provider(first_providers(ascending.remove(j), max), ascending[j], max)
            == first_providers(ascending, max),
{
    let provider = ascending[j];
    let d = provider.distance();
    let others = ascending.remove(j);
    let kept = first_providers(others, max);
    let m = kept.len() as int;
    let i = position(kept, d);
    lemma_position(kept, d);
    if j < m {
        assert(kept[j] == ascending[j + 1]);
        assert(ascending[j].distance() < ascending[j + 1].distance());
        assert(i <= j);
        if i < j {
            assert(kept[i] == ascending[i]);
            assert(ascending[i].distance() < ascending[j].distance());
        }
        assert(i == j);
    } else {
        if i < m {
            assert(kept[i] == ascending[i]);
            assert(ascending[i].distance() < ascending[j].distance());
        }
        assert(i == m);
    }
    assert(!occupied(kept, d));
    assert(with_provider(kept, provider, max) =~= first_providers(ascending, max));
}

proof fn lemma_put_providers(
    view: StoreView,
    config: MemoryStoreConfig,
    key: Seq<u8>,
    offered: Seq<ProviderView>,
)
    requires
        !view.providers.contains_key(key),
        view.providers.len() < config.max_provider_keys,
        forall|i: int| 0 <= i < offered.len() ==> (#[trigger] offered[i]).key == key,
    ensures
        offered.len() == 0 || config.max_providers_per_key == 0 ==> view.put_providers(
            config,
            offered,
        ) == view,
        offered.len() > 0 && config.max_providers_per_key > 0 ==> view.put_providers(
            config,
            offered,
        ).providers.contains_key(key),
    decreases offered.len(),
{
    if offered.len() > 0 {
        let before = offered.drop_last();
        assert forall|i: int| 0 <= i < before.len() implies (#[trigger] before[i]).key == key by {
            assert(before[i] == offered[i]);
        }
        lemma_put_providers(view, config, key, before);
        assert(offered.last().key == key);
    }
}

/// Whether `ascending` are the providers of `offered`, with no more than `max` addresses each, sorted
/// by their distances, which differ.
pub open spec fn arranges(
    ascending: Seq<ProviderView>,
    offered: Seq<ProviderView>,
    max: usize,
) -> bool {
    &&& sorted(ascending)
    &&& ascending.to_set() == all_truncated(offered, max).to_set()
    &&& forall|i: int, j: int|
        0 <= i < j < offered.len() ==> (#[trigger] offered[i]).distance() != (
        #[trigger] offered[j]).distance()
}

proof fn lemma_arranged(
    ascending: Seq<ProviderView>,
    offered: Seq<ProviderView>,
    max: usize,
    x: ProviderView,
)
    requires
        arranges(ascending, offered, max),
    ensures
        ascending.contains(x) <==> exists|i: int|
            0 <= i < offered.len() && truncated(#[trigger] offered[i], max) == x,
{
    let records = all_truncated(offered, max);
    assert(ascending.to_set().contains(x) == records.to_set().contains(x));
    if records.contains(x) {
        let i = choose|i: int| 0 <= i < records.len() && records[i] == x;
        assert(truncated(offered[i], max) == x);
    }
    if exists|i: int| 0 <= i < offered.len() && truncated(#[trigger] offered[i], max) == x {
        let i = choose|i: int| 0 <= i < offered.len() && truncated(#[trigger] offered[i], max) == x;
        assert(records[i] == x);
    }
}

proof fn lemma_arranged_without_last(
    ascending: Seq<ProviderView>,
    offered: Seq<ProviderView>,
    max: usize,
) -> (j: int)
    requires
        offered.len() > 0,
        arranges(ascending, offered, max),
    ensures
        0 <= j < ascending.len(),
        ascending[j] == truncated(offered.last(), max),
        arranges(ascending.remove(j), offered.drop_last(), max),
{
    let n = offered.len() - 1;
    let before = offered.drop_last();
    let earlier = all_truncated(before, max);
    let record = truncated(offered[n], max);
    lemma_arranged(ascending, offered, max, record);
    let j = choose|j: int| 0 <= j < ascending.len() && ascending[j] == record;
    let others = ascending.remove(j);
    assert forall|k: int| 0 <= k < others.len() implies #[trigger] others[k] == (if k < j {
        ascending[k]
    } else {
        ascending[k + 1]
    }) by {}
    assert(sorted(others)) by {
        assert forall|a: int, b: int| 0 <= a < b < others.len() implies (
        #[trigger] others[a]).distance() < (#[trigger] others[b]).distance() by {
            let a2 = if a < j { a } else { a + 1 };
            let b2 = if b < j { b } else { b + 1 };
            assert(ascending[a2].distance() < ascending[b2].distance());
        }
    }
    assert forall|x: ProviderView| others.contains(x) implies earlier.contains(x) by {
        let k = choose|k: int| 0 <= k < others.len() && others[k] == x;
        let k2 = if k < j { k } else { k + 1 };
        assert(ascending[k2] == x);
        if k2 < j {
            assert(ascending[k2].distance() < ascending[j].distance());
        } else {
            assert(ascending[j].distance() < ascending[k2].distance());
        }
        lemma_arranged(ascending, offered, max, x);
        let i = choose|i: int| 0 <= i < offered.len() && truncated(#[trigger] offered[i], max) == x;
        assert(i != n);
        assert(earlier[i] == x);
    }
    assert forall|x: ProviderView| earlier.contains(x) implies others.contains(x) by {
        let i = choose|i: int| 0 <= i < earlier.len() && earlier[i] == x;
        assert(truncated(offered[i], max) == x);
        lemma_arranged(ascending, offered, max, x);
        let k = choose|k: int| 0 <= k < ascending.len() && ascending[k] == x;
        assert(offered[i].distance() != offered[n].distance());
        if k < j {
            assert(others[k] == x);
        } else {
            assert(others[k - 1] == x);
        }
    }
    assert(others.to_set() =~= earlier.to_set());
    assert forall|a: int, b: int| 0 <= a < b < before.len() implies (
    #[trigger] before[a]).distance() != (#[trigger] before[b]).distance() by {
        assert(before[a] == offered[a] && before[b] == offered[b]);
    }
    j
}

/// Whatever the order in which providers at different distances are put under a new key, the closest
/// ones stay, as many as allowed and sorted by distance: where `ascending` are those that were
/// offered, sorted, the store keeps the first of them.
pub proof fn law_closest_providers_kept(
    view: StoreView,
    config: MemoryStoreConfig,
    key: Seq<u8>,
    offered: Seq<ProviderView>,
    ascending: Seq<ProviderView>,
)
    requires
        !view.providers.contains_key(key),
        view.providers.len() < config.max_provider_keys,
        forall|i: int| 0 <= i < offered.len() ==> (#[trigger] offered[i]).key == key,
        arranges(ascending, offered, config.max_provider_addresses),
    ensures
        view.put_providers(config, offered).providers_of(key) == first_providers(
            ascending,
            config.max_providers_per_key,
        ),
    decreases offered.len(),
{
    let limit = config.max_provider_addresses;
    let max = config.max_providers_per_key;
    if offered.len() == 0 {
        if ascending.len() > 0 {
            lemma_arranged(ascending, offered, limit, ascending[0]);
        }
        assert(first_providers(ascending, max) =~= Seq::<ProviderView>::empty());
    } else {
        let before = offered.drop_last();
        let record = truncated(offered.last(), limit);
        let j = lemma_arranged_without_last(ascending, offered, limit);
        let others = ascending.remove(j);
        assert forall|i: int| 0 <= i < before.len() implies (#[trigger] before[i]).key == key by {
            assert(before[i] == offered[i]);
        }
        law_closest_providers_kept(view, config, key, before, others);
        lemma_put_providers(view, config, key, before);
        lemma_closest_with(ascending, j, max);
        assert(offered.last() == offered[offered.len() - 1]);
        let held = view.put_providers(config, before);
        if !held.providers.contains_key(key) {
            if max == 0 {
                assert(first_providers(ascending, max) =~= Seq::<ProviderView>::empty());
            } else {
                assert(with_provider(Seq::empty(), record, max) =~= seq![record]);
            }
        }
    }
}

/// The providers that stay of those that were put under a new key are what the store gives back as
/// long as none has expired.
pub proof fn law_closest_providers_returned(
    view: StoreView,
    config: MemoryStoreConfig,
    key: Seq<u8>,
    offered: Seq<ProviderView>,
    ascending: Seq<ProviderView>,
    now: Instant,
)
    requires
        !view.providers.contains_key(key),
        view.providers.len() < config.max_provider_keys,
        forall|i: int| 0 <= i < offered.len() ==> (#[trigger] offered[i]).key == key,
        arranges(ascending, offered, config.max_provider_addresses),
        forall|i: int| 0 <= i < offered.len() ==> !(#[trigger] offered[i]).expired(now),
    ensures
        live(view.put_providers(config, offered).providers_of(key), now) == first_providers(
            ascending,
            config.max_providers_per_key,
        ),
{
    law_closest_providers_kept(view, config, key, offered, ascending);
    let limit = config.max_provider_addresses;
    let kept = first_providers(ascending, config.max_providers_per_key);
    assert forall|k: int| 0 <= k < kept.len() implies !(#[trigger] kept[k]).expired(now) by {
        assert(ascending[k] == kept[k]);
        lemma_arranged(ascending, offered, limit, kept[k]);
        let i = choose|i: int|
            0 <= i < offered.len() && truncated(#[trigger] offered[i], limit) == kept[k];
        assert(!offered[i].expired(now));
    }
    lemma_live_all(kept, now);
}

proof fn lemma_live_all(providers: Seq<ProviderView>, now: Instant)
    requires
        forall|i: int| 0 <= i < providers.len() ==> !(#[trigger] providers[i]).expired(now),
    ensures
        live(providers, now) == providers,
    decreases providers.len(),
{
    reveal(Seq::filter);
    if providers.len() > 0 {
        let rest = providers.drop_last();
        assert forall|i: int| 0 <= i < rest.len() implies !(#[trigger] rest[i]).expired(now) by {
            assert(rest[i] == providers[i]);
        }
        lemma_live_all(rest, now);
        assert(!providers[providers.len() - 1].expired(now));
        assert(live(providers, now) =~= rest.push(providers.last()));
        assert(rest.push(providers.last()) =~= providers);
    }
}

/// A store within its limits stays within them when a record is put. No record is removed, and none
/// but that under the key of the new one is touched.
pub proof fn law_put_keeps_limits(view: StoreView, config: MemoryStoreConfig, record: RecordView)
    requires
        view.within(config),
    ensures
        view.put(config, record).within(config),
        forall|key: Seq<u8>| #[trigger]
            view.records.contains_key(key) ==> view.put(config, record).records.contains_key(key),
        forall|key: Seq<u8>|
            #![trigger view.put(config, record).records.contains_key(key)]
            key != record.key && view.put(config, record).records.contains_key(key)
                ==> view.records.contains_key(key) && view.put(config, record).records[key]
                == view.records[key],
        view.put(config, record).providers == view.providers,
{
    law_records_bounded(view, config, record, record.key, Instant { nanos: 0 });
    let after = view.put(config, record);
    assert forall|key: Seq<u8>| #[trigger] after.records.contains_key(key) implies after.records[
        key
    ].key == key && after.records[key].value.len() < config.max_record_size_bytes by {
        if !(key == record.key && view.takes(config, record)) {
            assert(view.records.contains_key(key));
        }
    }
}

/// A store within its limits stays within them when a provider is put. The providers of other keys
/// and the records stay as they are.
pub proof fn law_put_provider_keeps_limits(
    view: StoreView,
    config: MemoryStoreConfig,
    provider: ProviderView,
)
    requires
        view.within(config),
    ensures
        view.put_provider(config, provider).within(config),
        forall|key: Seq<u8>|
            key != provider.key ==> #[trigger] view.put_provider(config, provider).providers_of(key)
                == view.providers_of(key),
        view.put_provider(config, provider).records == view.records,
{
    law_provider_keys_bounded(view, config, provider);
    let after = view.put_provider(config, provider);
    let record = truncated(provider, config.max_provider_addresses);
    let max = config.max_providers_per_key;
    assert forall|key: Seq<u8>| #[trigger] after.providers.contains_key(key) implies providers_within(
        after.providers[key],
        key,
        config,
    ) by {
        if key == provider.key && view.takes_provider(config, provider) {
            if view.providers.contains_key(key) {
                let before = view.providers[key];
                let now = after.providers[key];
                assert(providers_within(before, key, config));
                law_providers_sorted_and_bounded(before, record, max);
                lemma_position(before, record.distance());
                assert forall|i: int| 0 <= i < now.len() implies (#[trigger] now[i]).key == key
                    && now[i].addresses.len() <= config.max_provider_addresses by {
                    assert(now[i] == record || before.contains(now[i])) by {
                        let p = position(before, record.distance());
                        if i < p && i < before.len() {
                            assert(now[i] == before[i]);
                        } else if i > p && !occupied(before, record.distance()) && p != max {
                            assert(now[i] == before[i - 1]);
                        } else if i != p {
                            assert(now[i] == before[i]);
                        }
                    }
                }
            } else {
                assert(after.providers[key] == seq![record]);
            }
        } else {
            assert(view.providers.contains_key(key));
        }
    }
}

proof fn lemma_live_sorted(providers: Seq<ProviderView>, now: Instant)
    requires
        sorted(providers),
    ensures
        sorted(live(providers, now)),
        live(providers, now).len() <= providers.len(),
        forall|i: int|
            0 <= i < live(providers, now).len() ==> providers.contains(
                #[trigger] live(providers, now)[i],
            ),
    decreases providers.len(),
{
    reveal(Seq::filter);
    if providers.len() > 0 {
        let rest = providers.drop_last();
        let last = providers.last();
        assert(sorted(rest)) by {
            assert forall|i: int, j: int| 0 <= i < j < rest.len() implies (
            #[trigger] rest[i]).distance() < (#[trigger] rest[j]).distance() by {
                assert(providers[i].distance() < providers[j].distance());
            }
        }
        lemma_live_sorted(rest, now);
        let kept = live(rest, now);
        let all = live(providers, now);
        assert(all == if !last.expired(now) {
            kept.push(last)
        } else {
            kept
        });
        assert forall|i: int| 0 <= i < kept.len() implies providers.contains(#[trigger] kept[i])
            && kept[i].distance() < last.distance() by {
            assert(rest.contains(kept[i]));
            let j = choose|j: int| 0 <= j < rest.len() && rest[j] == kept[i];
            assert(providers[j] == kept[i]);
            assert(providers[j].distance() < providers[providers.len() - 1].distance());
        }
        assert(providers[providers.len() - 1] == last);
        assert forall|i: int| 0 <= i < all.len() implies providers.contains(#[trigger] all[i]) by {
            if i < kept.len() {
                assert(all[i] == kept[i]);
            }
        }
        assert forall|i: int, j: int| 0 <= i < j < all.len() implies (
        #[trigger] all[i]).distance() < (#[trigger] all[j]).distance() by {
            assert(all[i] == kept[i]);
            if j < kept.len() {
                assert(all[j] == kept[j]);
            }
        }
    }
}

/// A store within its limits stays within them when it is asked for a record or for providers.
pub proof fn law_get_keeps_limits(
    view: StoreView,
    config: MemoryStoreConfig,
    asked: Seq<u8>,
    now: Instant,
)
    requires
        view.within(config),
    ensures
        view.after_get(asked, now).within(config),
        view.after_get_providers(asked, now).within(config),
{
    let got = view.after_get(asked, now);
    assert forall|key: Seq<u8>| #[trigger] got.records.contains_key(key) implies got.records[
        key
    ].key == key && got.records[key].value.len() < config.max_record_size_bytes by {
        assert(view.records.contains_key(key));
    }
    let after = view.after_get_providers(asked, now);
    if view.providers.contains_key(asked) {
        let before = view.providers[asked];
        assert(providers_within(before, asked, config));
        lemma_live_sorted(before, now);
        assert(view.providers.insert(asked, live(before, now)).dom() =~= view.providers.dom());
        let kept = live(before, now);
        assert forall|i: int| 0 <= i < kept.len() implies (#[trigger] kept[i]).key == asked
            && kept[i].addresses.len() <= config.max_provider_addresses by {
            assert(before.contains(kept[i]));
            let j = choose|j: int| 0 <= j < before.len() && before[j] == kept[i];
            assert(before[j].key == asked);
        }
    }
    assert forall|key: Seq<u8>| #[trigger] after.providers.contains_key(key) implies providers_within(
        after.providers[key],
        key,
        config,
    ) by {
        assert(view.providers.contains_key(key));
    }
}

/// A provider that is turned away changes nothing.
pub proof fn law_refused_provider_changes_nothing(
    view: StoreView,
    config: MemoryStoreConfig,
    provider: ProviderView,
)
    requires
        !view.takes_provider(config, provider),
    ensures
        view.put_provider(config, provider) == view,
{
}

/// Providers are kept for no more keys than allowed.
pub proof fn law_provider_keys_bounded(
    view: StoreView,
    config: MemoryStoreConfig,
    provider: ProviderView,
)
    requires
        view.providers.dom().finite(),
        view.providers.len() <= config.max_provider_keys,
    ensures
        view.put_provider(config, provider).providers.len() <= config.max_provider_keys,
{
    if view.providers.contains_key(provider.key) {
        assert(view.put_provider(config, provider).providers.dom() =~= view.providers.dom());
    }
}

/// A provider that is put under a new key is what the store gives back, with no more addresses
/// than allowed, until it expires.
pub proof fn law_put_then_get_provider(
    view: StoreView,
    config: MemoryStoreConfig,
    provider: ProviderView,
    now: Instant,
)
    requires
        !view.providers.contains_key(provider.key),
        view.takes_provider(config, provider),
        !provider.expired(now),
    ensures
        live(view.put_provider(config, provider).providers_of(provider.key), now) == seq![
            truncated(provider, config.max_provider_addresses),
        ],
        truncated(provider, config.max_provider_addresses).addresses.len()
            <= config.max_provider_addresses,
{
    reveal(Seq::filter);
    let record = truncated(provider, config.max_provider_addresses);
    let one = seq![record];
    assert(one.drop_last() =~= Seq::empty());
    assert(one.last() == record);
    assert(Seq::<ProviderView>::empty().filter(|p: ProviderView| !p.expired(now)) =~= Seq::empty());
    assert(live(one, now) =~= one);
}

/// A record is stored if it is smaller than the limit and there is room for its key, or a record
/// under its key that does not expire after it; it then stands in the place of that one. Otherwise
/// everything stays as it is.
pub proof fn law_which_records_are_stored(
    view: StoreView,
    config: MemoryStoreConfig,
    record: RecordView,
)
    ensures
        ({
            let after = view.put(config, record);
            let held = view.records.contains_key(record.key);
            let outlived = (view.records[record.key].expires matches Some(stored) && (record.expires
                matches Some(new) && stored.nanos > new.nanos));
            let small = record.value.len() < config.max_record_size_bytes;
            &&& small && held && !outlived ==> after.records == view.records.insert(
                record.key,
                record,
            )
            &&& small && !held && view.records.len() < config.max_records ==> after.records
                == view.records.insert(record.key, record)
            &&& !small || (held && outlived) || (!held && view.records.len()
                >= config.max_records) ==> after.records == view.records
            &&& after.providers == view.providers
        }),
{
}

/// The store gives back what it holds under a key, exactly, unless that has expired; and what has
/// expired is gone once it has been asked for.
pub proof fn law_what_the_store_gives_back(view: StoreView, key: Seq<u8>, now: Instant)
    ensures
        ({
            let held = view.records.contains_key(key);
            let expired = (view.records[key].expires matches Some(at) && at.nanos <= now.nanos);
            &&& held && !expired ==> view.get(key, now) == Some(view.records[key]) && view.after_get(
                key,
                now,
            ) == view
            &&& held && expired ==> view.get(key, now) is None && view.after_get(key, now).records
                == view.records.remove(key)
            &&& !held ==> view.get(key, now) is None && view.after_get(key, now) == view
        }),
{
}

/// A provider is taken in if its key is new and there is room for another key, or if its key has
/// fewer providers than allowed; it is kept with its first addresses, as many as allowed.
pub proof fn law_providers_taken_in(
    view: StoreView,
    config: MemoryStoreConfig,
    provider: ProviderView,
)
    requires
        config.max_providers_per_key > 0,
        view.providers.contains_key(provider.key) ==> view.providers[provider.key].len()
            < config.max_providers_per_key,
        !view.providers.contains_key(provider.key) ==> view.providers.len()
            < config.max_provider_keys,
    ensures
        ({
            let after = view.put_provider(config, provider);
            &&& after.records == view.records
            &&& after.providers.contains_key(provider.key)
            &&& exists|i: int|
                0 <= i < after.providers[provider.key].len() && ({
                    let kept = #[trigger] after.providers[provider.key][i];
                    &&& kept.key == provider.key
                    &&& kept.provider == provider.provider
                    &&& kept.expires == provider.expires
                    &&& kept.addresses.len() == if provider.addresses.len()
                        <= config.max_provider_addresses {
                        provider.addresses.len()
                    } else {
                        config.max_provider_addresses as nat
                    }
                    &&& kept.addresses == provider.addresses.take(kept.addresses.len() as int)
                })
            &&& forall|key: Seq<u8>|
                key != provider.key ==> (#[trigger] after.providers.contains_key(key)
                    <==> view.providers.contains_key(key)) && after.providers[key]
                    == view.providers[key]
        }),
{
    let d = provider.distance();
    let record = truncated(provider, config.max_provider_addresses);
    let after = view.put_provider(config, provider);
    assert(record.addresses =~= provider.addresses.take(record.addresses.len() as int));
    if view.providers.contains_key(provider.key) {
        let providers = view.providers[provider.key];
        lemma_position(providers, d);
        let i = position(providers, d);
        assert(after.providers[provider.key][i] == record);
    } else {
        assert(after.providers[provider.key][0] == record);
    }
}

} // verus!
