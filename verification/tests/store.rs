use ferrumdb::store::ByteMap;
use ferrumdb::store::ByteSet;
use ferrumdb::store::Entry;
use ferrumdb::store::MemoryStore;
use ferrumdb::store::Value;

const SECOND: u64 = 1_000_000_000;

#[test]
fn test_basic_set_get() {
    let mut store = MemoryStore::new();
    store.set(b"key1".to_vec(), Value::string(b"value1".to_vec()));

    let value = store.get(b"key1").unwrap();
    assert_eq!(value.as_string().unwrap(), &b"value1".to_vec());
}

#[test]
fn test_delete() {
    let mut store = MemoryStore::new();
    store.set(b"key1".to_vec(), Value::string(b"value1".to_vec()));

    assert!(store.delete(b"key1"));
    assert!(!store.exists_now(b"key1"));
}

#[test]
fn memory_test_exists() {
    let mut store = MemoryStore::new();
    store.set(b"key1".to_vec(), Value::string(b"value1".to_vec()));

    assert!(store.exists_now(b"key1"));
    assert!(!store.exists_now(b"key2"));
}

#[test]
fn test_expiration() {
    let mut store = MemoryStore::new();
    store.set(b"key1".to_vec(), Value::string(b"value1".to_vec()));
    let now = store.now();
    store.expire_at(b"key1", 1, now);

    assert!(store.exists_at(b"key1", now));

    // Two seconds on, the key is gone.
    assert!(!store.exists_at(b"key1", now + 2 * SECOND));
}

#[test]
fn expiry_is_lazy_and_final() {
    let mut store = MemoryStore::new();
    store.set(b"k".to_vec(), Value::integer(1));
    assert!(store.expire_at(b"k", 10, 0));
    assert!(store.exists_at(b"k", 10 * SECOND - 1));
    assert_eq!(store.len(), 1);
    assert!(!store.exists_at(b"k", 10 * SECOND));
    assert_eq!(store.len(), 0);
    // Once gone, gone at every instant until it is set again.
    assert!(!store.exists_at(b"k", 0));
    assert!(!store.exists_at(b"k", 5 * SECOND));
    store.set(b"k".to_vec(), Value::integer(2));
    assert!(store.exists_at(b"k", 100 * SECOND));
}

#[test]
fn ttl_conventions() {
    let mut store = MemoryStore::new();
    assert_eq!(store.ttl_at(b"k", 0), -2);
    store.set(b"k".to_vec(), Value::string(b"v".to_vec()));
    assert_eq!(store.ttl_at(b"k", 0), -1);
    assert!(store.expire_at(b"k", 100, 5 * SECOND));
    assert_eq!(store.ttl_at(b"k", 5 * SECOND), 100);
    assert_eq!(store.ttl_at(b"k", 5 * SECOND + 1), 99);
    assert_eq!(store.ttl_at(b"k", 6 * SECOND - 1), 99);
    assert_eq!(store.ttl_at(b"k", 104 * SECOND + SECOND / 2), 0);
    assert_eq!(store.ttl_at(b"k", 105 * SECOND), -2);
    assert_eq!(store.ttl_at(b"k", 0), -2);
}

#[test]
fn expire_with_a_time_to_live_that_is_not_positive_clears_the_expiry() {
    let mut store = MemoryStore::new();
    store.set(b"k".to_vec(), Value::integer(1));
    assert!(store.expire_at(b"k", 10, 0));
    assert!(store.expire_at(b"k", 0, SECOND));
    assert_eq!(store.ttl_at(b"k", 1000 * SECOND), -1);
    assert!(store.expire_at(b"k", -5, SECOND));
    assert_eq!(store.ttl_at(b"k", 1000 * SECOND), -1);
    assert!(!store.expire_at(b"absent", 10, 0));
}

#[test]
fn the_longest_time_to_live_does_not_overflow() {
    let mut store = MemoryStore::new();
    store.set(b"k".to_vec(), Value::integer(1));
    assert!(store.expire_at(b"k", i64::MAX, u64::MAX));
    assert_eq!(store.ttl_at(b"k", u64::MAX), i64::MAX);
    assert_eq!(store.ttl_at(b"k", 0), i64::MAX);
}

#[test]
fn set_replaces_value_and_expiry() {
    let mut store = MemoryStore::new();
    assert!(store.set(b"k".to_vec(), Value::integer(1)));
    assert!(store.expire_at(b"k", 10, 0));
    assert!(!store.set(b"k".to_vec(), Value::integer(2)));
    assert_eq!(store.ttl_at(b"k", 0), -1);
    assert_eq!(store.get_at(b"k", 0).unwrap().as_integer(), Some(2));
}

#[test]
fn get_mut_changes_in_place() {
    let mut store = MemoryStore::new();
    store.set(b"k".to_vec(), Value::empty_list());
    store.get_mut_at(b"k", 0).unwrap().as_list_mut().unwrap().push_back(b"a".to_vec());
    assert_eq!(store.get_at(b"k", 0).unwrap().as_list().unwrap().len(), 1);
    assert!(store.get_mut_at(b"absent", 0).is_none());
}

#[test]
fn delete_of_an_expired_key_reports_false() {
    let mut store = MemoryStore::new();
    store.set(b"k".to_vec(), Value::integer(1));
    store.expire_at(b"k", 1, 0);
    assert!(!store.delete_at(b"k", 2 * SECOND));
    assert_eq!(store.len(), 0);
    assert!(!store.delete_at(b"k", 0));
}

#[test]
fn keys_cleanup_and_stats() {
    let mut store = MemoryStore::new();
    store.set(b"a".to_vec(), Value::string(b"1".to_vec()));
    store.set(b"b".to_vec(), Value::string(b"22".to_vec()));
    store.set(b"c".to_vec(), Value::string(b"333".to_vec()));
    store.expire_at(b"b", 1, 0);

    let mut keys = store.keys_at(0);
    keys.sort();
    assert_eq!(keys, vec![b"a".to_vec(), b"b".to_vec(), b"c".to_vec()]);
    let mut keys = store.keys_at(2 * SECOND);
    keys.sort();
    assert_eq!(keys, vec![b"a".to_vec(), b"c".to_vec()]);

    let stats = store.stats_at(2 * SECOND);
    assert_eq!(stats.total_keys, 3);
    assert_eq!(stats.active_keys, 2);
    assert_eq!(stats.expired_keys, 1);
    assert_eq!(stats.used_memory_bytes, (1 + 1 + 24) + (1 + 3 + 24));
    assert_eq!(store.memory_usage_at(0), (1 + 1 + 24) + (1 + 2 + 24) + (1 + 3 + 24));

    assert_eq!(store.cleanup_expired_at(0), 0);
    assert_eq!(store.len(), 3);
    assert_eq!(store.cleanup_expired_at(2 * SECOND), 1);
    assert_eq!(store.len(), 2);
    assert!(store.get_entry(b"b").is_none());
    assert!(store.get_entry(b"a").is_some());

    store.clear();
    assert!(store.is_empty());
    assert_eq!(store.keys().len(), 0);
    assert_eq!(store.stats().total_keys, 0);
    assert_eq!(store.cleanup_expired(), 0);
    assert_eq!(store.memory_usage(), 0);
}

#[test]
fn store_with_the_clock() {
    let mut store = MemoryStore::with_capacity(4);
    store.set(b"k".to_vec(), Value::integer(7));
    assert_eq!(store.ttl(b"k"), -1);
    assert!(store.expire(b"k", 100));
    let ttl = store.ttl(b"k");
    assert!(ttl >= 99 && ttl <= 100);
    assert!(store.get_mut(b"k").is_some());
    assert!(store.get_entry_mut(b"k").is_some());
    assert!(store.delete(b"k"));
    assert_eq!(store.ttl(b"k"), -2);
}

#[test]
fn entry_expiry() {
    let mut entry = Entry::new(b"k".to_vec(), Value::integer(1));
    assert!(!entry.is_expired(u64::MAX));
    assert_eq!(entry.ttl_seconds(0), -1);
    entry.set_expiration(3, SECOND);
    assert_eq!(entry.expire_at, Some(4 * SECOND as u128));
    assert!(!entry.is_expired(4 * SECOND - 1));
    assert!(entry.is_expired(4 * SECOND));
    assert_eq!(entry.ttl_seconds(SECOND), 3);
    assert_eq!(entry.ttl_seconds(SECOND + 1), 2);
    assert_eq!(entry.ttl_seconds(4 * SECOND), -2);
    entry.remove_expiration();
    assert_eq!(entry.ttl_seconds(4 * SECOND), -1);
    entry.set_expiration(0, SECOND);
    assert_eq!(entry.expire_at, None);

    let timed = Entry::with_expiration(b"k".to_vec(), Value::integer(1), 500, 1000);
    assert_eq!(timed.expire_at, Some(1500));
    assert!(timed.is_expired(1500));

    entry.version = u64::MAX;
    entry.increment_version();
    assert_eq!(entry.version, 0);
    entry.increment_version();
    assert_eq!(entry.version, 1);
    assert_eq!(entry.memory_usage(), 1 + 8 + 24);
}

#[test]
fn value_kinds() {
    assert_eq!(Value::string(b"x".to_vec()).kind_name(), "string");
    assert_eq!(Value::integer(1).kind_name(), "integer");
    assert_eq!(Value::empty_list().kind_name(), "list");
    assert_eq!(Value::empty_set().kind_name(), "set");
    assert_eq!(Value::empty_hash().kind_name(), "hash");

    let mut hash = Value::empty_hash();
    assert!(hash.as_hash().is_some());
    assert!(hash.as_list().is_none());
    assert!(hash.as_set_mut().is_none());
    assert!(hash.as_list_mut().is_none());
    assert!(!hash.is_string());
    assert!(!hash.is_integer());
    hash.as_hash_mut().unwrap().insert(b"field".to_vec(), b"value".to_vec());
    assert_eq!(hash.memory_usage(), 5 + 5 + 48);

    let mut set = Value::empty_set();
    assert!(set.as_set_mut().unwrap().insert(b"abc".to_vec()));
    assert!(!set.as_set_mut().unwrap().insert(b"abc".to_vec()));
    assert_eq!(set.as_set().unwrap().len(), 1);
    assert_eq!(set.memory_usage(), 3 + 48);

    let mut list = Value::empty_list();
    list.as_list_mut().unwrap().push_back(b"ab".to_vec());
    list.as_list_mut().unwrap().push_front(b"c".to_vec());
    assert_eq!(list.memory_usage(), 3 + 32);

    assert_eq!(Value::integer(5).memory_usage(), 8);
    assert_eq!(Value::string(b"four".to_vec()).memory_usage(), 4);
    assert_eq!(Value::integer(5).as_integer(), Some(5));
    assert_eq!(Value::integer(5).as_string(), None);
    assert!(Value::string(Vec::new()).is_string());
    assert!(Value::integer(0).is_integer());
}

#[test]
fn byte_map() {
    let mut map: ByteMap<u32> = ByteMap::new();
    assert!(map.is_empty());
    assert_eq!(map.insert(b"a".to_vec(), 1), None);
    assert_eq!(map.insert(b"b".to_vec(), 2), None);
    assert_eq!(map.insert(b"a".to_vec(), 3), Some(1));
    assert_eq!(map.len(), 2);
    assert_eq!(map.get(b"a"), Some(&3));
    assert_eq!(map.get(b"z"), None);
    assert!(map.contains_key(b"b"));
    *map.get_mut(b"b").unwrap() = 20;
    assert_eq!(map.key_at(0), &b"a".to_vec());
    assert_eq!(map.value_at(1), &20);
    assert_eq!(map.remove(b"a"), Some(3));
    assert_eq!(map.remove(b"a"), None);
    assert_eq!(map.len(), 1);
    map.clear();
    assert_eq!(map.len(), 0);
}

#[test]
fn byte_set() {
    let mut set = ByteSet::new();
    assert!(set.insert(b"x".to_vec()));
    assert!(set.insert(b"y".to_vec()));
    assert!(!set.insert(b"x".to_vec()));
    assert!(set.contains(b"y"));
    assert!(!set.contains(b"z"));
    assert_eq!(set.len(), 2);
    assert_eq!(set.item_at(1), &b"y".to_vec());
    assert!(set.remove(b"x"));
    assert!(!set.remove(b"x"));
    assert_eq!(set.len(), 1);
}

#[test]
fn byte_map_with_many_keys() {
    let mut map: ByteMap<usize> = ByteMap::new();
    for i in 0..2000usize {
        assert_eq!(map.insert(format!("key_{}", i).into_bytes(), i), None);
        assert_eq!(map.len(), i + 1);
    }
    for i in 0..2000usize {
        assert_eq!(map.get(format!("key_{}", i).as_bytes()), Some(&i));
        assert_eq!(map.key_at(i), &format!("key_{}", i).into_bytes());
    }
    assert_eq!(map.get(b"key_2000"), None);
    // Every other key leaves; the rest stay, each with its value.
    for i in (0..2000usize).step_by(2) {
        assert_eq!(map.remove(format!("key_{}", i).as_bytes()), Some(i));
        assert_eq!(map.remove(format!("key_{}", i).as_bytes()), None);
    }
    assert_eq!(map.len(), 1000);
    for i in 0..2000usize {
        let found = map.get(format!("key_{}", i).as_bytes());
        if i % 2 == 0 {
            assert_eq!(found, None);
        } else {
            assert_eq!(found, Some(&i));
        }
    }
    let mut keys: Vec<Vec<u8>> = (0..map.len()).map(|i| map.key_at(i).clone()).collect();
    keys.sort();
    keys.dedup();
    assert_eq!(keys.len(), 1000);
    for i in 0..map.len() {
        let key = map.key_at(i).clone();
        assert_eq!(map.get(&key), Some(map.value_at(i)));
    }
    for i in 0..2000usize {
        map.insert(format!("key_{}", i).into_bytes(), i + 1);
    }
    assert_eq!(map.len(), 2000);
    assert_eq!(map.get(b"key_7"), Some(&8));
    while map.len() > 0 {
        let key = map.key_at(0).clone();
        assert!(map.remove(&key).is_some());
    }
    assert!(map.is_empty());
    assert_eq!(map.insert(b"again".to_vec(), 1), None);
    assert_eq!(map.get(b"again"), Some(&1));
}

#[test]
fn store_with_many_keys() {
    let mut store = MemoryStore::new();
    for i in 0..500u64 {
        store.set(format!("k{}", i).into_bytes(), Value::integer(i as i64));
        if i % 3 == 0 {
            store.expire_at(format!("k{}", i).as_bytes(), 1, 0);
        }
    }
    assert_eq!(store.len(), 500);
    assert_eq!(store.keys_at(0).len(), 500);
    assert_eq!(store.keys_at(SECOND).len(), 333);
    assert_eq!(store.cleanup_expired_at(SECOND), 167);
    assert_eq!(store.len(), 333);
    for i in 0..500u64 {
        let found = store.get_at(format!("k{}", i).as_bytes(), SECOND).and_then(|v| v.as_integer());
        if i % 3 == 0 {
            assert_eq!(found, None);
        } else {
            assert_eq!(found, Some(i as i64));
        }
    }
}
