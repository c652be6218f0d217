//! The store of records and providers.

use litep2p::address::Multiaddr;
use litep2p::peer_id::PeerId;
use litep2p::protocol::libp2p::kademlia::record::{ProviderRecord, Record, RecordKey};
use litep2p::protocol::libp2p::kademlia::store::{MemoryStore, MemoryStoreConfig};
use litep2p::time::Instant;
use multiaddr::Protocol;

const SECOND: u64 = 1_000_000_000;

fn address(ip: [u8; 4], port: u16) -> Multiaddr {
    let address = multiaddr::Multiaddr::empty()
        .with(Protocol::Ip4(ip.into()))
        .with(Protocol::Tcp(port));
    Multiaddr::from_bytes(address.to_vec()).unwrap()
}

fn sort_by_distance(providers: &mut Vec<ProviderRecord>) {
    providers.sort_by(|a, b| a.distance().partial_cmp(&b.distance()).unwrap());
}

#[test]
fn put_get_record() {
    let mut store = MemoryStore::new();
    let key = RecordKey::from_bytes(vec![1, 2, 3]);
    let record = Record::new(key.clone(), vec![4, 5, 6]);

    store.put(record.clone());
    assert_eq!(store.get(&key), Some(&record));
}

#[test]
fn max_records() {
    let mut store = MemoryStore::with_config(MemoryStoreConfig {
        max_records: 1,
        max_record_size_bytes: 1024,
        ..Default::default()
    });

    let key1 = RecordKey::from_bytes(vec![1, 2, 3]);
    let key2 = RecordKey::from_bytes(vec![4, 5, 6]);
    let record1 = Record::new(key1.clone(), vec![4, 5, 6]);
    let record2 = Record::new(key2.clone(), vec![7, 8, 9]);

    store.put(record1.clone());
    store.put(record2.clone());

    assert_eq!(store.get(&key1), Some(&record1));
    assert_eq!(store.get(&key2), None);
}

#[test]
fn expired_record_removed() {
    let mut store = MemoryStore::new();
    let key = RecordKey::from_bytes(vec![1, 2, 3]);
    let record = Record {
        key: key.clone(),
        value: vec![4, 5, 6],
        publisher: None,
        expires: Some(Instant::now().before(5 * SECOND)),
    };
    // Record is already expired.
    assert!(record.is_expired(Instant::now()));

    store.put(record.clone());
    assert_eq!(store.get(&key), None);
}

#[test]
fn new_record_overwrites() {
    let mut store = MemoryStore::new();
    let key = RecordKey::from_bytes(vec![1, 2, 3]);
    let record1 = Record {
        key: key.clone(),
        value: vec![4, 5, 6],
        publisher: None,
        expires: Some(Instant::now().after(100 * SECOND)),
    };
    let record2 = Record {
        key: key.clone(),
        value: vec![4, 5, 6],
        publisher: None,
        expires: Some(Instant::now().after(1000 * SECOND)),
    };

    store.put(record1.clone());
    assert_eq!(store.get(&key), Some(&record1));

    store.put(record2.clone());
    assert_eq!(store.get(&key), Some(&record2));
}

#[test]
fn max_record_size() {
    let mut store = MemoryStore::with_config(MemoryStoreConfig {
        max_records: 1024,
        max_record_size_bytes: 2,
        ..Default::default()
    });

    let key = RecordKey::from_bytes(vec![1, 2, 3]);
    let record = Record::new(key.clone(), vec![4, 5]);
    store.put(record.clone());
    assert_eq!(store.get(&key), None);

    let record = Record::new(key.clone(), vec![4]);
    store.put(record.clone());
    assert_eq!(store.get(&key), Some(&record));
}

#[test]
fn put_get_provider() {
    let mut store = MemoryStore::new();
    let provider = ProviderRecord {
        key: RecordKey::from_bytes(vec![1, 2, 3]),
        provider: PeerId::random(),
        addresses: vec![address([127, 0, 0, 1], 10000)],
        expires: Instant::now().after(3600 * SECOND),
    };

    store.put_provider(provider.clone());
    assert_eq!(store.get_providers(&provider.key), vec![provider]);
}

#[test]
fn multiple_providers_per_key() {
    let mut store = MemoryStore::new();
    let key = RecordKey::from_bytes(vec![1, 2, 3]);
    let provider1 = ProviderRecord {
        key: key.clone(),
        provider: PeerId::random(),
        addresses: vec![address([127, 0, 0, 1], 10000)],
        expires: Instant::now().after(3600 * SECOND),
    };
    let provider2 = ProviderRecord {
        key: key.clone(),
        provider: PeerId::random(),
        addresses: vec![address([127, 0, 0, 1], 10000)],
        expires: Instant::now().after(3600 * SECOND),
    };

    store.put_provider(provider1.clone());
    store.put_provider(provider2.clone());

    let got_providers = store.get_providers(&key);
    assert_eq!(got_providers.len(), 2);
    assert!(got_providers.contains(&provider1));
    assert!(got_providers.contains(&provider2));
}

#[test]
fn providers_sorted_by_distance() {
    let mut store = MemoryStore::new();
    let key = RecordKey::from_bytes(vec![1, 2, 3]);
    let providers = (0..10)
        .map(|_| ProviderRecord {
            key: key.clone(),
            provider: PeerId::random(),
            addresses: vec![address([127, 0, 0, 1], 10000)],
            expires: Instant::now().after(3600 * SECOND),
        })
        .collect::<Vec<_>>();

    providers.iter().for_each(|p| {
        store.put_provider(p.clone());
    });

    let sorted_providers = {
        let mut providers = providers;
        sort_by_distance(&mut providers);
        providers
    };

    assert_eq!(store.get_providers(&key), sorted_providers);
}

#[test]
fn max_providers_per_key() {
    let mut store = MemoryStore::with_config(MemoryStoreConfig {
        max_providers_per_key: 10,
        ..Default::default()
    });
    let key = RecordKey::from_bytes(vec![1, 2, 3]);
    let providers = (0..20)
        .map(|_| ProviderRecord {
            key: key.clone(),
            provider: PeerId::random(),
            addresses: vec![address([127, 0, 0, 1], 10000)],
            expires: Instant::now().after(3600 * SECOND),
        })
        .collect::<Vec<_>>();

    providers.iter().for_each(|p| {
        store.put_provider(p.clone());
    });
    assert_eq!(store.get_providers(&key).len(), 10);
}

#[test]
fn closest_providers_kept() {
    let mut store = MemoryStore::with_config(MemoryStoreConfig {
        max_providers_per_key: 10,
        ..Default::default()
    });
    let key = RecordKey::from_bytes(vec![1, 2, 3]);
    let providers = (0..20)
        .map(|_| ProviderRecord {
            key: key.clone(),
            provider: PeerId::random(),
            addresses: vec![address([127, 0, 0, 1], 10000)],
            expires: Instant::now().after(3600 * SECOND),
        })
        .collect::<Vec<_>>();

    providers.iter().for_each(|p| {
        store.put_provider(p.clone());
    });

    let closest_providers = {
        let mut providers = providers;
        sort_by_distance(&mut providers);
        providers.truncate(10);
        providers
    };

    assert_eq!(store.get_providers(&key), closest_providers);
}

#[test]
fn furthest_provider_discarded() {
    let mut store = MemoryStore::with_config(MemoryStoreConfig {
        max_providers_per_key: 10,
        ..Default::default()
    });
    let key = RecordKey::from_bytes(vec![1, 2, 3]);
    let providers = (0..11)
        .map(|_| ProviderRecord {
            key: key.clone(),
            provider: PeerId::random(),
            addresses: vec![address([127, 0, 0, 1], 10000)],
            expires: Instant::now().after(3600 * SECOND),
        })
        .collect::<Vec<_>>();

    let sorted_providers = {
        let mut providers = providers;
        sort_by_distance(&mut providers);
        providers
    };

    // First 10 providers are inserted.
    for i in 0..10 {
        assert!(store.put_provider(sorted_providers[i].clone()));
    }
    assert_eq!(store.get_providers(&key), sorted_providers[..10]);

    // The furthests provider doesn't fit.
    assert!(!store.put_provider(sorted_providers[10].clone()));
    assert_eq!(store.get_providers(&key), sorted_providers[..10]);
}

#[test]
fn update_provider_in_place() {
    let mut store = MemoryStore::with_config(MemoryStoreConfig {
        max_providers_per_key: 10,
        ..Default::default()
    });
    let key = RecordKey::from_bytes(vec![1, 2, 3]);
    let peer_ids = (0..10).map(|_| PeerId::random()).collect::<Vec<_>>();
    let peer_id0 = peer_ids[0];
    let providers = peer_ids
        .iter()
        .map(|peer_id| ProviderRecord {
            key: key.clone(),
            provider: *peer_id,
            addresses: vec![address([127, 0, 0, 1], 10000)],
            expires: Instant::now().after(3600 * SECOND),
        })
        .collect::<Vec<_>>();

    providers.iter().for_each(|p| {
        store.put_provider(p.clone());
    });

    let sorted_providers = {
        let mut providers = providers;
        sort_by_distance(&mut providers);
        providers
    };

    assert_eq!(store.get_providers(&key), sorted_providers);

    let provider0_new = ProviderRecord {
        key: key.clone(),
        provider: peer_id0,
        addresses: vec![address([192, 168, 0, 1], 20000)],
        expires: Instant::now().after(3600 * SECOND),
    };

    // Provider is updated in place.
    assert!(store.put_provider(provider0_new.clone()));

    let providers_new = sorted_providers
        .into_iter()
        .map(|p| {
            if p.provider == peer_id0 {
                provider0_new.clone()
            } else {
                p
            }
        })
        .collect::<Vec<_>>();

    assert_eq!(store.get_providers(&key), providers_new);
}

#[test]
fn provider_record_expires() {
    let mut store = MemoryStore::new();
    let provider = ProviderRecord {
        key: RecordKey::from_bytes(vec![1, 2, 3]),
        provider: PeerId::random(),
        addresses: vec![address([127, 0, 0, 1], 10000)],
        expires: Instant::now().before(5 * SECOND),
    };

    // Provider record is already expired.
    assert!(provider.is_expired(Instant::now()));

    store.put_provider(provider.clone());
    assert!(store.get_providers(&provider.key).is_empty());
}

#[test]
fn individual_provider_record_expires() {
    let mut store = MemoryStore::new();
    let key = RecordKey::from_bytes(vec![1, 2, 3]);
    let provider1 = ProviderRecord {
        key: key.clone(),
        provider: PeerId::random(),
        addresses: vec![address([127, 0, 0, 1], 10000)],
        expires: Instant::now().before(5 * SECOND),
    };
    let provider2 = ProviderRecord {
        key: key.clone(),
        provider: PeerId::random(),
        addresses: vec![address([127, 0, 0, 1], 10000)],
        expires: Instant::now().after(3600 * SECOND),
    };

    assert!(provider1.is_expired(Instant::now()));

    store.put_provider(provider1.clone());
    store.put_provider(provider2.clone());

    assert_eq!(store.get_providers(&key), vec![provider2]);
}

#[test]
fn max_addresses_per_provider() {
    let mut store = MemoryStore::with_config(MemoryStoreConfig {
        max_provider_addresses: 2,
        ..Default::default()
    });
    let key = RecordKey::from_bytes(vec![1, 2, 3]);
    let provider = ProviderRecord {
        key: RecordKey::from_bytes(vec![1, 2, 3]),
        provider: PeerId::random(),
        addresses: vec![
            address([127, 0, 0, 1], 10000),
            address([127, 0, 0, 1], 10001),
            address([127, 0, 0, 1], 10002),
            address([127, 0, 0, 1], 10003),
            address([127, 0, 0, 1], 10004),
        ],
        expires: Instant::now().after(3600 * SECOND),
    };

    store.put_provider(provider);

    let got_providers = store.get_providers(&key);
    assert_eq!(got_providers.len(), 1);
    assert_eq!(got_providers.first().unwrap().key, key);
    assert_eq!(got_providers.first().unwrap().addresses.len(), 2);
}

#[test]
fn max_provider_keys() {
    let mut store = MemoryStore::with_config(MemoryStoreConfig {
        max_provider_keys: 2,
        ..Default::default()
    });

    let provider1 = ProviderRecord {
        key: RecordKey::from_bytes(vec![1, 2, 3]),
        provider: PeerId::random(),
        addresses: vec![address([127, 0, 0, 1], 10001)],
        expires: Instant::now().after(3600 * SECOND),
    };
    let provider2 = ProviderRecord {
        key: RecordKey::from_bytes(vec![4, 5, 6]),
        provider: PeerId::random(),
        addresses: vec![address([127, 0, 0, 1], 10002)],
        expires: Instant::now().after(3600 * SECOND),
    };
    let provider3 = ProviderRecord {
        key: RecordKey::from_bytes(vec![7, 8, 9]),
        provider: PeerId::random(),
        addresses: vec![address([127, 0, 0, 1], 10003)],
        expires: Instant::now().after(3600 * SECOND),
    };

    assert!(store.put_provider(provider1.clone()));
    assert!(store.put_provider(provider2.clone()));
    assert!(!store.put_provider(provider3.clone()));

    assert_eq!(store.get_providers(&provider1.key), vec![provider1]);
    assert_eq!(store.get_providers(&provider2.key), vec![provider2]);
    assert_eq!(store.get_providers(&provider3.key), vec![]);
}

#[test]
fn shorter_lived_record_does_not_replace() {
    let mut store = MemoryStore::new();
    let key = RecordKey::from_bytes(vec![1, 2, 3]);
    let now = Instant::now();
    let stored = Record { expires: Some(now.after(1000 * SECOND)), ..Record::new(key.clone(), vec![1]) };
    let offered = Record { expires: Some(now.after(100 * SECOND)), ..Record::new(key.clone(), vec![2]) };

    store.put(stored.clone());
    store.put(offered);
    assert_eq!(store.get(&key), Some(&stored));
}

#[test]
fn record_expires_at_its_instant() {
    let mut store = MemoryStore::new();
    let key = RecordKey::from_bytes(vec![1, 2, 3]);
    let expires = Instant::now().after(100 * SECOND);
    let record = Record { expires: Some(expires), ..Record::new(key.clone(), vec![1]) };

    store.put(record.clone());
    assert_eq!(store.get_at(&key, expires.before(1)), Some(&record));
    assert_eq!(store.record_count(), 1);
    assert_eq!(store.get_at(&key, expires), None);
    assert_eq!(store.record_count(), 0);
}

#[test]
fn records_do_not_touch_each_other() {
    let mut store = MemoryStore::new();
    let first = Record::new(RecordKey::from_bytes(vec![1]), vec![10]);
    let second = Record::new(RecordKey::from_bytes(vec![2]), vec![20]);

    store.put(first.clone());
    store.put(second.clone());
    assert_eq!(store.get(&first.key), Some(&first));
    assert_eq!(store.get(&second.key), Some(&second));
    assert_eq!(store.get(&RecordKey::from_bytes(vec![3])), None);
}

#[test]
fn expired_providers_are_forgotten() {
    let mut store = MemoryStore::new();
    let key = RecordKey::from_bytes(vec![1, 2, 3]);
    let expires = Instant::now().after(100 * SECOND);
    let provider = ProviderRecord {
        key: key.clone(),
        provider: PeerId::random(),
        addresses: vec![],
        expires,
    };

    assert!(store.put_provider(provider.clone()));
    assert_eq!(store.provider_key_count(), 1);
    assert_eq!(store.get_providers_at(&key, expires.before(1)), vec![provider]);
    assert_eq!(store.get_providers_at(&key, expires), vec![]);
    assert_eq!(store.provider_key_count(), 0);
}

#[test]
fn time_is_counted_from_the_epoch() {
    assert_eq!(Instant::since_epoch(Some(7)), Instant { nanos: 7 });
    assert_eq!(Instant::since_epoch(None), Instant { nanos: 0 });
}

#[test]
fn no_provider_is_kept_where_none_is_allowed() {
    let mut store = MemoryStore::with_config(MemoryStoreConfig {
        max_providers_per_key: 0,
        ..Default::default()
    });
    let key = RecordKey::from_bytes(vec![1, 2, 3]);
    let provider = ProviderRecord {
        key: key.clone(),
        provider: PeerId::random(),
        addresses: vec![],
        expires: Instant::now().after(3600 * SECOND),
    };
    assert!(!store.put_provider(provider));
    assert_eq!(store.get_providers(&key), vec![]);
    assert_eq!(store.provider_key_count(), 0);
}

#[test]
fn limits_are_kept() {
    let config = MemoryStoreConfig {
        max_records: 2,
        max_provider_keys: 1,
        max_providers_per_key: 2,
        max_provider_addresses: 1,
        ..Default::default()
    };
    let mut store = MemoryStore::with_config(config);
    for i in 0..4u8 {
        let key = RecordKey::from_bytes(vec![i]);
        store.put(Record::new(key.clone(), vec![i]));
        for _ in 0..3 {
            store.put_provider(ProviderRecord {
                key: key.clone(),
                provider: PeerId::random(),
                addresses: vec![address([127, 0, 0, 1], 1), address([127, 0, 0, 1], 2)],
                expires: Instant::now().after(3600 * SECOND),
            });
        }
    }
    assert_eq!(store.record_count(), 2);
    assert_eq!(store.provider_key_count(), 1);
    let providers = store.get_providers(&RecordKey::from_bytes(vec![0]));
    assert_eq!(providers.len(), 2);
    assert!(providers.iter().all(|provider| provider.addresses.len() == 1));
}
