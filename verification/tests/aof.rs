use ferrumdb::aof::entry::AofError;
use ferrumdb::aof::replay::replay_entries_at;
use ferrumdb::aof::replay::replay_entry_at;
use ferrumdb::aof::replay::ReplayError;
use ferrumdb::aof::replay_entries;
use ferrumdb::aof::replay_entry;
use ferrumdb::aof::AofConfig;
use ferrumdb::aof::AofEntry;
use ferrumdb::aof::AofOperation;
use ferrumdb::aof::AofReader;
use ferrumdb::aof::AofWriter;
use ferrumdb::aof::SyncPolicy;
use ferrumdb::store::MemoryStore;
use ferrumdb::store::Value;

const SECOND: u64 = 1_000_000_000;

#[test]
fn test_serialize_deserialize_set() {
    let entry = AofEntry::new(
        AofOperation::SetKey,
        b"mykey".to_vec(),
        vec![b"myvalue".to_vec()],
    );

    let bytes = entry.to_bytes();
    let (decoded, size) = AofEntry::from_bytes(&bytes).unwrap();

    assert_eq!(size, bytes.len());
    assert_eq!(decoded.op, AofOperation::SetKey);
    assert_eq!(decoded.key, b"mykey".to_vec());
    assert_eq!(decoded.payload.len(), 1);
    assert_eq!(decoded.payload[0], b"myvalue".to_vec());
}

#[test]
fn test_serialize_deserialize_hset() {
    let entry = AofEntry::new(
        AofOperation::HSet,
        b"myhash".to_vec(),
        vec![b"field1".to_vec(), b"value1".to_vec()],
    );

    let bytes = entry.to_bytes();
    let (decoded, _) = AofEntry::from_bytes(&bytes).unwrap();

    assert_eq!(decoded.op, AofOperation::HSet);
    assert_eq!(decoded.key, b"myhash".to_vec());
    assert_eq!(decoded.payload.len(), 2);
    assert_eq!(decoded.payload[0], b"field1".to_vec());
    assert_eq!(decoded.payload[1], b"value1".to_vec());
}

#[test]
fn test_checksum_validation() {
    let entry = AofEntry::new(AofOperation::SetKey, b"key".to_vec(), vec![b"value".to_vec()]);

    let mut bytes = entry.to_bytes();

    // Corrupt the checksum
    let len = bytes.len();
    bytes[len - 1] ^= 0xFF;

    let result = AofEntry::from_bytes(&bytes);
    assert!(result.is_err());
    assert!(result.unwrap_err().contains("Checksum mismatch"));
}

#[test]
fn test_load_and_parse() {
    let mut writer = AofWriter::new(SyncPolicy::Always, 0);

    let entry1 = AofEntry::new(AofOperation::SetKey, b"key1".to_vec(), vec![b"value1".to_vec()]);
    writer.write(&entry1, 0);

    let entry2 = AofEntry::new(AofOperation::SetKey, b"key2".to_vec(), vec![b"value2".to_vec()]);
    writer.write(&entry2, 0);

    writer.sync(0);
    let batch = writer.flush();

    // Read back
    let reader = AofReader::from_data(batch.bytes);
    let entries = reader.parse_entries();

    assert_eq!(entries.len(), 2);
    assert_eq!(entries[0].key, b"key1".to_vec());
    assert_eq!(entries[1].key, b"key2".to_vec());
}

#[test]
fn test_write_entry() {
    let mut writer = AofWriter::new(SyncPolicy::Always, 0);

    let entry = AofEntry::new(
        AofOperation::SetKey,
        b"testkey".to_vec(),
        vec![b"testvalue".to_vec()],
    );

    writer.write(&entry, 0);
    writer.sync(0);

    let batch = writer.flush();
    assert!(batch.bytes.len() > 0);
    assert!(batch.sync);
}

#[test]
fn test_replay_set() {
    let mut store = MemoryStore::new();

    let entry = AofEntry::new(AofOperation::SetKey, b"key1".to_vec(), vec![b"value1".to_vec()]);

    replay_entry(&mut store, &entry).unwrap();

    assert!(store.exists_now(b"key1"));
    let value = store.get(b"key1").unwrap();
    assert_eq!(value.as_string().unwrap(), &b"value1".to_vec());
}

#[test]
fn test_replay_hset() {
    let mut store = MemoryStore::new();

    let entry = AofEntry::new(
        AofOperation::HSet,
        b"myhash".to_vec(),
        vec![b"field1".to_vec(), b"value1".to_vec()],
    );

    replay_entry(&mut store, &entry).unwrap();

    assert!(store.exists_now(b"myhash"));
    let value = store.get(b"myhash").unwrap();
    let hash = value.as_hash().unwrap();
    assert_eq!(hash.get(b"field1").unwrap(), &b"value1".to_vec());
}

#[test]
fn test_replay_multiple_entries() {
    let mut store = MemoryStore::new();

    let entries = vec![
        AofEntry::new(AofOperation::SetKey, b"key1".to_vec(), vec![b"value1".to_vec()]),
        AofEntry::new(AofOperation::SetKey, b"key2".to_vec(), vec![b"value2".to_vec()]),
        AofEntry::new(AofOperation::Del, b"key1".to_vec(), vec![]),
    ];

    let replayed = replay_entries(&mut store, entries).unwrap();
    assert_eq!(replayed, 3);

    assert!(!store.exists_now(b"key1"));
    assert!(store.exists_now(b"key2"));
}

#[test]
fn operation_codes() {
    let all = [
        (1u8, AofOperation::SetKey),
        (2, AofOperation::Del),
        (3, AofOperation::Expire),
        (4, AofOperation::HSet),
        (5, AofOperation::HDel),
        (6, AofOperation::LPush),
        (7, AofOperation::RPush),
        (8, AofOperation::SAdd),
        (9, AofOperation::Incr),
        (10, AofOperation::IncrBy),
    ];
    for (code, op) in all {
        assert_eq!(AofOperation::from_u8(code), Some(op));
        assert_eq!(op.to_u8(), code);
    }
    assert_eq!(AofOperation::from_u8(0), None);
    assert_eq!(AofOperation::from_u8(11), None);
    assert_eq!(AofOperation::from_u8(255), None);
}

#[test]
fn entry_layout_is_exact() {
    let entry = AofEntry::with_timestamp(
        AofOperation::HSet,
        0x0102030405060708,
        b"ab".to_vec(),
        vec![b"f".to_vec(), Vec::new()],
    );
    let bytes = entry.to_bytes();
    let body: Vec<u8> = vec![
        4, // op
        8, 7, 6, 5, 4, 3, 2, 1, // timestamp
        2, 0, 0, 0, b'a', b'b', // key
        2, 0, 0, 0, // payload count
        1, 0, 0, 0, b'f', // first item
        0, 0, 0, 0, // second item
    ];
    assert_eq!(&bytes[..body.len()], &body[..]);
    assert_eq!(bytes.len(), body.len() + 8);
    let checksum = xxhash_rust::xxh64::xxh64(&body, 0);
    assert_eq!(&bytes[body.len()..], &checksum.to_le_bytes()[..]);
    // The checksum is not the zero that a wrapper handing back nothing would give.
    assert_ne!(checksum, 0);

    let (decoded, used) = AofEntry::decode(&bytes).unwrap();
    assert_eq!(used, bytes.len());
    assert_eq!(decoded.timestamp, 0x0102030405060708);
    assert_eq!(decoded.payload, vec![b"f".to_vec(), Vec::new()]);
}

#[test]
fn smallest_entry_has_25_bytes() {
    let entry = AofEntry::with_timestamp(AofOperation::Del, 0, Vec::new(), Vec::new());
    let bytes = entry.to_bytes();
    assert_eq!(bytes.len(), 25);
    let (decoded, used) = AofEntry::decode(&bytes).unwrap();
    assert_eq!(used, 25);
    assert_eq!(decoded.op, AofOperation::Del);
    for cut in 0..25 {
        assert!(AofEntry::decode(&bytes[..cut]).is_err());
    }
}

#[test]
fn every_changed_byte_is_caught() {
    let entry = AofEntry::with_timestamp(
        AofOperation::SetKey,
        1700000000000,
        b"key".to_vec(),
        vec![b"value".to_vec()],
    );
    let bytes = entry.to_bytes();
    for i in 0..bytes.len() {
        for flip in [0x01u8, 0x80, 0xFF] {
            let mut changed = bytes.clone();
            changed[i] ^= flip;
            assert!(AofEntry::from_bytes(&changed).is_err());
        }
    }
}

#[test]
fn decode_errors() {
    assert_eq!(AofEntry::decode(&[]).unwrap_err(), AofError::InsufficientData);
    assert_eq!(AofEntry::decode(&[1; 16]).unwrap_err(), AofError::InsufficientData);

    let good = AofEntry::with_timestamp(
        AofOperation::SetKey,
        7,
        b"key".to_vec(),
        vec![b"value".to_vec()],
    )
    .to_bytes();

    let mut bad = good.clone();
    bad[0] = 0;
    assert_eq!(AofEntry::decode(&bad).unwrap_err(), AofError::InvalidOperation);
    bad[0] = 11;
    assert_eq!(AofEntry::decode(&bad).unwrap_err(), AofError::InvalidOperation);

    let mut bad = good.clone();
    bad[9] = 200;
    assert_eq!(AofEntry::decode(&bad).unwrap_err(), AofError::InvalidKeyLength);

    // Key length such that the key ends with the data: no room for the count.
    let mut bad = good.clone();
    bad[9] = (good.len() - 13 - 2) as u8;
    assert_eq!(AofEntry::decode(&bad).unwrap_err(), AofError::MissingPayloadCount);

    // More items than there are.
    let mut bad = good.clone();
    bad[16] = 3;
    assert!(matches!(
        AofEntry::decode(&bad).unwrap_err(),
        AofError::InvalidPayloadItemLength | AofError::MissingPayloadLength
    ));

    // An item that runs past the end.
    let mut bad = good.clone();
    bad[20] = 100;
    assert_eq!(AofEntry::decode(&bad).unwrap_err(), AofError::InvalidPayloadItemLength);

    // The data ends before the length of the second item.
    let two = AofEntry::with_timestamp(
        AofOperation::HSet,
        7,
        b"key".to_vec(),
        vec![b"value".to_vec(), b"x".to_vec()],
    )
    .to_bytes();
    assert_eq!(AofEntry::decode(&two[..31]).unwrap_err(), AofError::MissingPayloadLength);

    assert_eq!(
        AofEntry::decode(&good[..good.len() - 1]).unwrap_err(),
        AofError::MissingChecksum
    );

    let mut bad = good.clone();
    let last = bad.len() - 1;
    bad[last] ^= 1;
    match AofEntry::decode(&bad).unwrap_err() {
        AofError::ChecksumMismatch { stored, computed } => {
            assert_eq!(computed, xxhash_rust::xxh64::xxh64(&good[..good.len() - 8], 0));
            assert_eq!(stored ^ computed, 1 << 56);
            assert_eq!(
                AofEntry::from_bytes(&bad).unwrap_err(),
                format!("Checksum mismatch: expected {}, got {}", stored, computed)
            );
        }
        other => panic!("unexpected error {:?}", other),
    }

    assert_eq!(AofError::InsufficientData.message(), "Insufficient data");
    assert_eq!(AofError::InvalidOperation.message(), "Invalid operation type");
    assert_eq!(AofError::InvalidKeyLength.message(), "Invalid key length");
    assert_eq!(AofError::MissingPayloadCount.message(), "Missing payload count");
    assert_eq!(AofError::MissingPayloadLength.message(), "Missing payload length");
    assert_eq!(AofError::InvalidPayloadItemLength.message(), "Invalid payload item length");
    assert_eq!(AofError::MissingChecksum.message(), "Missing checksum");
}

#[test]
fn reader_stops_at_the_first_bad_entry() {
    let first = AofEntry::with_timestamp(
        AofOperation::SetKey,
        1,
        b"a".to_vec(),
        vec![b"1".to_vec()],
    )
    .to_bytes();
    let second =
        AofEntry::with_timestamp(AofOperation::Del, 2, b"b".to_vec(), vec![]).to_bytes();
    let third = AofEntry::with_timestamp(
        AofOperation::SetKey,
        3,
        b"c".to_vec(),
        vec![b"3".to_vec()],
    )
    .to_bytes();

    let mut log = Vec::new();
    log.extend_from_slice(&first);
    log.extend_from_slice(&second);
    log.extend_from_slice(&third);
    let reader = AofReader::from_data(log.clone());
    assert_eq!(reader.size(), log.len());
    assert_eq!(reader.parse_entries().len(), 3);

    // A corrupted second entry hides the third as well.
    let mut corrupted = log.clone();
    corrupted[first.len() + 10] ^= 0x40;
    let entries = AofReader::from_data(corrupted).parse_entries();
    assert_eq!(entries.len(), 1);
    assert_eq!(entries[0].key, b"a".to_vec());

    // A log that is cut short keeps its complete entries.
    let cut = log[..log.len() - 3].to_vec();
    assert_eq!(AofReader::from_data(cut).parse_entries().len(), 2);

    assert_eq!(AofReader::from_data(Vec::new()).parse_entries().len(), 0);
}

#[test]
fn sync_policies() {
    let entry = AofEntry::with_timestamp(AofOperation::Del, 0, b"k".to_vec(), vec![]);
    let size = entry.to_bytes().len();

    let mut always = AofWriter::new(SyncPolicy::Always, 0);
    always.write(&entry, 5);
    let batch = always.flush();
    assert_eq!(batch.bytes.len(), size);
    assert!(batch.sync);
    let batch = always.flush();
    assert_eq!(batch.bytes.len(), 0);
    assert!(!batch.sync);

    let mut never = AofWriter::new(SyncPolicy::No, 0);
    never.write(&entry, 100 * SECOND);
    assert!(!never.flush().sync);
    never.sync(100 * SECOND);
    assert!(never.flush().sync);

    let mut every = AofWriter::new(SyncPolicy::EverySecond, 10 * SECOND);
    assert_eq!(every.sync_policy(), SyncPolicy::EverySecond);
    every.write(&entry, 10 * SECOND + SECOND - 1);
    assert!(!every.flush().sync);
    every.write(&entry, 11 * SECOND);
    assert!(every.flush().sync);
    // The second just counted from the last forced write.
    every.write(&entry, 11 * SECOND + SECOND - 1);
    assert!(!every.flush().sync);
    every.write(&entry, 12 * SECOND);
    every.write(&entry, 12 * SECOND);
    let batch = every.flush();
    assert_eq!(batch.bytes.len(), 2 * size);
    assert!(batch.sync);
    // A clock that runs backwards forces nothing.
    every.write(&entry, 0);
    assert!(!every.flush().sync);
}

#[test]
fn defaults() {
    assert_eq!(SyncPolicy::default(), SyncPolicy::EverySecond);
    let config = AofConfig::default();
    assert_eq!(config.path, "ferrumdb.aof");
    assert_eq!(config.sync_policy, SyncPolicy::EverySecond);
    assert!(config.enabled);
}

fn entry(op: AofOperation, key: &[u8], payload: &[&[u8]]) -> AofEntry {
    AofEntry::with_timestamp(op, 0, key.to_vec(), payload.iter().map(|p| p.to_vec()).collect())
}

#[test]
fn replay_of_each_operation() {
    let mut store = MemoryStore::new();
    let now = 0;

    replay_entry_at(&mut store, &entry(AofOperation::Incr, b"n", &[b"41"]), now).unwrap();
    assert_eq!(store.get_at(b"n", now).unwrap().as_integer(), Some(41));
    replay_entry_at(&mut store, &entry(AofOperation::IncrBy, b"n", &[b"-7"]), now).unwrap();
    assert_eq!(store.get_at(b"n", now).unwrap().as_integer(), Some(-7));

    replay_entry_at(&mut store, &entry(AofOperation::Expire, b"n", &[b"10"]), now).unwrap();
    assert_eq!(store.ttl_at(b"n", now), 10);
    // EXPIRE of an absent key is applied and changes nothing.
    replay_entry_at(&mut store, &entry(AofOperation::Expire, b"zz", &[b"10"]), now).unwrap();
    assert!(!store.exists_at(b"zz", now));

    replay_entry_at(&mut store, &entry(AofOperation::HSet, b"h", &[b"f", b"1"]), now).unwrap();
    replay_entry_at(&mut store, &entry(AofOperation::HSet, b"h", &[b"g", b"2"]), now).unwrap();
    replay_entry_at(&mut store, &entry(AofOperation::HSet, b"h", &[b"f", b"3"]), now).unwrap();
    {
        let hash = store.get_at(b"h", now).unwrap().as_hash().unwrap();
        assert_eq!(hash.len(), 2);
        assert_eq!(hash.get(b"f"), Some(&b"3".to_vec()));
    }
    replay_entry_at(&mut store, &entry(AofOperation::HDel, b"h", &[b"f"]), now).unwrap();
    assert_eq!(store.get_at(b"h", now).unwrap().as_hash().unwrap().len(), 1);
    // HDEL on a key that holds no hash, or on no key, is applied and changes nothing.
    replay_entry_at(&mut store, &entry(AofOperation::HDel, b"n", &[b"f"]), now).unwrap();
    replay_entry_at(&mut store, &entry(AofOperation::HDel, b"zz", &[b"f"]), now).unwrap();

    // Lists and sets are accepted and not applied.
    replay_entry_at(&mut store, &entry(AofOperation::LPush, b"l", &[b"a"]), now).unwrap();
    replay_entry_at(&mut store, &entry(AofOperation::RPush, b"l", &[b"a"]), now).unwrap();
    replay_entry_at(&mut store, &entry(AofOperation::SAdd, b"s", &[b"a"]), now).unwrap();
    assert!(!store.exists_at(b"l", now));
    assert!(!store.exists_at(b"s", now));

    replay_entry_at(&mut store, &entry(AofOperation::Del, b"h", &[]), now).unwrap();
    assert!(!store.exists_at(b"h", now));
}

#[test]
fn replay_errors() {
    let mut store = MemoryStore::new();
    store.set(b"s".to_vec(), Value::string(b"text".to_vec()));
    let cases: Vec<(AofEntry, ReplayError, &str)> = vec![
        (
            entry(AofOperation::SetKey, b"k", &[]),
            ReplayError::MissingValue,
            "SET operation requires value payload",
        ),
        (
            entry(AofOperation::Expire, b"k", &[]),
            ReplayError::MissingTtl,
            "EXPIRE operation requires TTL payload",
        ),
        (
            entry(AofOperation::Expire, b"k", &[b"\xff"]),
            ReplayError::InvalidTtlEncoding,
            "Invalid TTL encoding",
        ),
        (
            entry(AofOperation::Expire, b"k", &[b"soon"]),
            ReplayError::InvalidTtl,
            "Invalid TTL value",
        ),
        (
            entry(AofOperation::HSet, b"k", &[b"f"]),
            ReplayError::MissingFieldValue,
            "HSET operation requires field and value",
        ),
        (
            entry(AofOperation::HSet, b"s", &[b"f", b"v"]),
            ReplayError::NotAHash,
            "Key exists but is not a hash",
        ),
        (
            entry(AofOperation::HDel, b"k", &[]),
            ReplayError::MissingField,
            "HDEL operation requires field",
        ),
        (
            entry(AofOperation::Incr, b"k", &[]),
            ReplayError::MissingIncrValue,
            "INCR operation requires value payload",
        ),
        (
            entry(AofOperation::IncrBy, b"k", &[]),
            ReplayError::MissingIncrByValue,
            "INCRBY operation requires value payload",
        ),
        (
            entry(AofOperation::Incr, b"k", &[b"\xc3"]),
            ReplayError::InvalidValueEncoding,
            "Invalid value encoding",
        ),
        (
            entry(AofOperation::IncrBy, b"k", &[b"1.5"]),
            ReplayError::InvalidInteger,
            "Invalid integer value",
        ),
    ];
    for (bad, error, message) in cases {
        assert_eq!(replay_entry_at(&mut store, &bad, 0), Err(error));
        assert_eq!(error.message(), message);
        assert_eq!(replay_entry(&mut store, &bad), Err(message.to_string()));
    }
    assert_eq!(store.len(), 1);

    // Entries that cannot be applied are passed over and not counted.
    let entries = vec![
        entry(AofOperation::SetKey, b"a", &[b"1"]),
        entry(AofOperation::SetKey, b"b", &[]),
        entry(AofOperation::Incr, b"c", &[b"x"]),
        entry(AofOperation::SetKey, b"d", &[b"4"]),
    ];
    assert_eq!(replay_entries_at(&mut store, &entries, 0), 2);
    assert!(store.exists_at(b"a", 0));
    assert!(!store.exists_at(b"b", 0));
    assert!(store.exists_at(b"d", 0));
}
