//! Replaying the log into a store.

use vstd::prelude::*;
use vstd::string::StringExecFns;
use vstd::utf8::valid_utf8;
use crate::aof::entry::AofEntry;
use crate::aof::entry::AofEntryView;
use crate::aof::entry::AofOperation;
use crate::aof::reader::entries_view;
use crate::octets::copy_bytes;
use crate::protocol::decimal::parse_decimal;
use crate::protocol::decimal::parse_i64;
use crate::protocol::text::is_utf8;
use crate::store::entry::EntryView;
use crate::store::memory::evict;
use crate::store::memory::expire_in;
use crate::store::memory::live;
use crate::store::memory::MemoryStore;
use crate::store::memory::StoreView;
use crate::store::value::Value;
use crate::store::value::ValueView;

verus! {

/// Why an entry could not be replayed.
#[derive(Debug, Clone, Copy, PartialEq, Eq, Structural)]
pub enum ReplayError {
    /// A SET entry without a value.
    MissingValue,
    /// An EXPIRE entry without a time to live.
    MissingTtl,
    /// An EXPIRE entry whose time to live is not UTF-8.
    InvalidTtlEncoding,
    /// An EXPIRE entry whose time to live is not a number.
    InvalidTtl,
    /// An HSET entry without field and value.
    MissingFieldValue,
    /// An HSET entry for a key that holds no hash.
    NotAHash,
    /// An HDEL entry without a field.
    MissingField,
    /// An INCR entry without a value.
    MissingIncrValue,
    /// An INCRBY entry without a value.
    MissingIncrByValue,
    /// An INCR or INCRBY entry whose value is not UTF-8.
    InvalidValueEncoding,
    /// An INCR or INCRBY entry whose value is not a number.
    InvalidInteger,
}

impl ReplayError {
    /// The error in words.
    pub open spec fn text(self) -> Seq<char> {
        match self {
            ReplayError::MissingValue => "SET operation requires value payload"@,
            ReplayError::MissingTtl => "EXPIRE operation requires TTL payload"@,
            ReplayError::InvalidTtlEncoding => "Invalid TTL encoding"@,
            ReplayError::InvalidTtl => "Invalid TTL value"@,
            ReplayError::MissingFieldValue => "HSET operation requires field and value"@,
            ReplayError::NotAHash => "Key exists but is not a hash"@,
            ReplayError::MissingField => "HDEL operation requires field"@,
            ReplayError::MissingIncrValue => "INCR operation requires value payload"@,
            ReplayError::MissingIncrByValue => "INCRBY operation requires value payload"@,
            ReplayError::InvalidValueEncoding => "Invalid value encoding"@,
            ReplayError::InvalidInteger => "Invalid integer value"@,
        }
    }

    /// The error in words.
    pub fn message(&self) -> (r: String)
        ensures
            r@ == self.text(),
    {
        match self {
            ReplayError::MissingValue => String::from_str("SET operation requires value payload"),
            ReplayError::MissingTtl => String::from_str("EXPIRE operation requires TTL payload"),
            ReplayError::InvalidTtlEncoding => String::from_str("Invalid TTL encoding"),
            ReplayError::InvalidTtl => String::from_str("Invalid TTL value"),
            ReplayError::MissingFieldValue => String::from_str(
                "HSET operation requires field and value",
            ),
            ReplayError::NotAHash => String::from_str("Key exists but is not a hash"),
            ReplayError::MissingField => String::from_str("HDEL operation requires field"),
            ReplayError::MissingIncrValue => String::from_str(
                "INCR operation requires value payload",
            ),
            ReplayError::MissingIncrByValue => String::from_str(
                "INCRBY operation requires value payload",
            ),
            ReplayError::InvalidValueEncoding => String::from_str("Invalid value encoding"),
            ReplayError::InvalidInteger => String::from_str("Invalid integer value"),
        }
    }
}

/// A number read from a payload item.
pub ghost enum Number {
    Value(i64),
    NotUtf8,
    NotANumber,
}

/// Reads a decimal number from a payload item.
pub open spec fn number_of(item: Seq<u8>) -> Number {
    if !valid_utf8(item) {
        Number::NotUtf8
    } else {
        match parse_decimal(item) {
            Some(n) => Number::Value(n),
            None => Number::NotANumber,
        }
    }
}

/// The store `m` with `value` put under the field `field` of the hash at
/// `key`.
pub open spec fn hash_put(m: StoreView, key: Seq<u8>, field: Seq<u8>, value: Seq<u8>) -> StoreView {
    m.insert(key, m[key].with_value(ValueView::Hash(m[key].value->Hash_0.insert(field, value))))
}

/// The store `m` without the field `field` of the hash at `key`.
pub open spec fn hash_drop(m: StoreView, key: Seq<u8>, field: Seq<u8>) -> StoreView {
    m.insert(key, m[key].with_value(ValueView::Hash(m[key].value->Hash_0.remove(field))))
}

/// What replaying `e` into `m` at `now` gives: the store afterwards, and the
/// error if the entry could not be applied.
pub open spec fn replay_one(m: StoreView, e: AofEntryView, now: u64) -> (
    StoreView,
    Option<ReplayError>,
) {
    match e.op {
        AofOperation::SetKey => if e.payload.len() == 0 {
            (m, Some(ReplayError::MissingValue))
        } else {
            (m.insert(e.key, EntryView::fresh(e.key, ValueView::String(e.payload[0]))), None)
        },
        AofOperation::Del => (m.remove(e.key), None),
        AofOperation::Expire => if e.payload.len() == 0 {
            (m, Some(ReplayError::MissingTtl))
        } else {
            match number_of(e.payload[0]) {
                Number::NotUtf8 => (m, Some(ReplayError::InvalidTtlEncoding)),
                Number::NotANumber => (m, Some(ReplayError::InvalidTtl)),
                Number::Value(seconds) => (expire_in(m, e.key, seconds, now), None),
            }
        },
        AofOperation::HSet => if e.payload.len() < 2 {
            (m, Some(ReplayError::MissingFieldValue))
        } else if live(m, e.key, now) {
            if m[e.key].value is Hash {
                (hash_put(m, e.key, e.payload[0], e.payload[1]), None)
            } else {
                (m, Some(ReplayError::NotAHash))
            }
        } else {
            (
                m.insert(
                    e.key,
                    EntryView::fresh(
                        e.key,
                        ValueView::Hash(Map::empty().insert(e.payload[0], e.payload[1])),
                    ),
                ),
                None,
            )
        },
        AofOperation::HDel => if e.payload.len() == 0 {
            (m, Some(ReplayError::MissingField))
        } else if live(m, e.key, now) && m[e.key].value is Hash {
            (hash_drop(m, e.key, e.payload[0]), None)
        } else {
            (evict(m, e.key, now), None)
        },
        AofOperation::LPush => (m, None),
        AofOperation::RPush => (m, None),
        AofOperation::SAdd => (m, None),
        AofOperation::Incr => if e.payload.len() == 0 {
            (m, Some(ReplayError::MissingIncrValue))
        } else {
            match number_of(e.payload[0]) {
                Number::NotUtf8 => (m, Some(ReplayError::InvalidValueEncoding)),
                Number::NotANumber => (m, Some(ReplayError::InvalidInteger)),
                Number::Value(n) => (
                    m.insert(e.key, EntryView::fresh(e.key, ValueView::Integer(n))),
                    None,
                ),
            }
        },
        AofOperation::IncrBy => if e.payload.len() == 0 {
            (m, Some(ReplayError::MissingIncrByValue))
        } else {
            match number_of(e.payload[0]) {
                Number::NotUtf8 => (m, Some(ReplayError::InvalidValueEncoding)),
                Number::NotANumber => (m, Some(ReplayError::InvalidInteger)),
                Number::Value(n) => (
                    m.insert(e.key, EntryView::fresh(e.key, ValueView::Integer(n))),
                    None,
                ),
            }
        },
    }
}

/// What replaying `entries` in order into `m` at `now` gives: the store
/// afterwards, and the number of entries that were applied. An entry that
/// cannot be applied is passed over.
pub open spec fn replay_all(m: StoreView, entries: Seq<AofEntryView>, now: u64) -> (
    StoreView,
    nat,
)
    decreases entries.len(),
{
    if entries.len() == 0 {
        (m, 0)
    } else {
        let (before, applied) = replay_all(m, entries.drop_last(), now);
        let (after, error) = replay_one(before, entries.last(), now);
        (
            after,
            if error is None {
                applied + 1
            } else {
                applied
            },
        )
    }
}

/// The outcome of reading a number from a payload item.
enum NumberStep {
    Value(i64),
    NotUtf8,
    NotANumber,
}

fn read_number(item: &[u8]) -> (r: NumberStep)
    ensures
        match r {
            NumberStep::Value(n) => number_of(item@) == Number::Value(n),
            NumberStep::NotUtf8 => number_of(item@) == Number::NotUtf8,
            NumberStep::NotANumber => number_of(item@) == Number::NotANumber,
        },
{
    if !is_utf8(item) {
        NumberStep::NotUtf8
    } else {
        match parse_i64(item) {
            Some(n) => NumberStep::Value(n),
            None => NumberStep::NotANumber,
        }
    }
}

/// Replays one entry into `store` at `now`.
pub fn replay_entry_at(store: &mut MemoryStore, entry: &AofEntry, now: u64) -> (r: Result<
    (),
    ReplayError,
>)
    ensures
        final(store)@ == replay_one(old(store)@, entry@, now).0,
        match r {
            Ok(_) => replay_one(old(store)@, entry@, now).1 is None,
            Err(e) => replay_one(old(store)@, entry@, now).1 == Some(e),
        },
{
    let ghost m = store@;
    let ghost e = entry@;
    match entry.op {
        AofOperation::SetKey => {
            if entry.payload.len() == 0 {
                return Err(ReplayError::MissingValue);
            }
            let value = copy_bytes(entry.payload[0].as_slice());
            store.set(copy_bytes(entry.key.as_slice()), Value::String(value));
            Ok(())
        },
        AofOperation::Del => {
            let _ = store.delete_at(entry.key.as_slice(), now);
            Ok(())
        },
        AofOperation::Expire => {
            if entry.payload.len() == 0 {
                return Err(ReplayError::MissingTtl);
            }
            match read_number(entry.payload[0].as_slice()) {
                NumberStep::NotUtf8 => Err(ReplayError::InvalidTtlEncoding),
                NumberStep::NotANumber => Err(ReplayError::InvalidTtl),
                NumberStep::Value(seconds) => {
                    let _ = store.expire_at(entry.key.as_slice(), seconds, now);
                    Ok(())
                },
            }
        },
        AofOperation::HSet => {
            if entry.payload.len() < 2 {
                return Err(ReplayError::MissingFieldValue);
            }
            let field = copy_bytes(entry.payload[0].as_slice());
            let value = copy_bytes(entry.payload[1].as_slice());
            match store.get_mut_at(entry.key.as_slice(), now) {
                Some(held) => match held.as_hash_mut() {
                    Some(hash) => {
                        let _ = hash.insert(field, value);
                        proof {
                            assert(crate::store::value::hash_view(*hash) =~= m[e.key].value->Hash_0.insert(
                                e.payload[0],
                                e.payload[1],
                            ));
                        }
                        Ok(())
                    },
                    None => Err(ReplayError::NotAHash),
                },
                None => {
                    let mut fresh = crate::store::bytemap::ByteMap::new();
                    let _ = fresh.insert(field, value);
                    proof {
                        assert(crate::store::value::hash_view(fresh) =~= Map::<
                            Seq<u8>,
                            Seq<u8>,
                        >::empty().insert(e.payload[0], e.payload[1]));
                        assert(evict(m, e.key, now).insert(
                            e.key,
                            EntryView::fresh(
                                e.key,
                                ValueView::Hash(Map::empty().insert(e.payload[0], e.payload[1])),
                            ),
                        ) =~= m.insert(
                            e.key,
                            EntryView::fresh(
                                e.key,
                                ValueView::Hash(Map::empty().insert(e.payload[0], e.payload[1])),
                            ),
                        ));
                    }
                    store.set(copy_bytes(entry.key.as_slice()), Value::Hash(fresh));
                    Ok(())
                },
            }
        },
        AofOperation::HDel => {
            if entry.payload.len() == 0 {
                return Err(ReplayError::MissingField);
            }
            match store.get_mut_at(entry.key.as_slice(), now) {
                Some(held) => match held.as_hash_mut() {
                    Some(hash) => {
                        let _ = hash.remove(entry.payload[0].as_slice());
                        proof {
                            assert(crate::store::value::hash_view(*hash) =~= m[e.key].value->Hash_0.remove(
                                e.payload[0],
                            ));
                        }
                    },
                    None => {},
                },
                None => {},
            }
            Ok(())
        },
        AofOperation::LPush => Ok(()),
        AofOperation::RPush => Ok(()),
        AofOperation::SAdd => Ok(()),
        AofOperation::Incr => {
            if entry.payload.len() == 0 {
                return Err(ReplayError::MissingIncrValue);
            }
            match read_number(entry.payload[0].as_slice()) {
                NumberStep::NotUtf8 => Err(ReplayError::InvalidValueEncoding),
                NumberStep::NotANumber => Err(ReplayError::InvalidInteger),
                NumberStep::Value(n) => {
                    store.set(copy_bytes(entry.key.as_slice()), Value::Integer(n));
                    Ok(())
                },
            }
        },
        AofOperation::IncrBy => {
            if entry.payload.len() == 0 {
                return Err(ReplayError::MissingIncrByValue);
            }
            match read_number(entry.payload[0].as_slice()) {
                NumberStep::NotUtf8 => Err(ReplayError::InvalidValueEncoding),
                NumberStep::NotANumber => Err(ReplayError::InvalidInteger),
                NumberStep::Value(n) => {
                    store.set(copy_bytes(entry.key.as_slice()), Value::Integer(n));
                    Ok(())
                },
            }
        },
    }
}

/// Replays one entry into `store` at the instant the store's clock shows.
pub fn replay_entry(store: &mut MemoryStore, entry: &AofEntry) -> (r: Result<(), String>)
    ensures
        exists|now: u64|
            final(store)@ == #[trigger] replay_one(old(store)@, entry@, now).0 && match r {
                Ok(_) => replay_one(old(store)@, entry@, now).1 is None,
                Err(message) => replay_one(old(store)@, entry@, now).1 is Some && message@
                    == replay_one(old(store)@, entry@, now).1->0.text(),
            },
{
    let now = store.now();
    match replay_entry_at(store, entry, now) {
        Ok(_) => Ok(()),
        Err(e) => Err(e.message()),
    }
}

/// Replays `entries` in order into `store` at `now`; returns how many were
/// applied. An entry that cannot be applied is passed over.
pub fn replay_entries_at(store: &mut MemoryStore, entries: &Vec<AofEntry>, now: u64) -> (replayed:
    usize)
    ensures
        final(store)@ == replay_all(old(store)@, entries_view(entries@), now).0,
        replayed == replay_all(old(store)@, entries_view(entries@), now).1,
{
    let ghost m = store@;
    let ghost all = entries_view(entries@);
    let mut replayed: usize = 0;
    let mut i: usize = 0;
    while i < entries.len()
        invariant
            i <= entries@.len(),
            replayed <= i,
            all == entries_view(entries@),
            store@ == replay_all(m, all.take(i as int), now).0,
            replayed == replay_all(m, all.take(i as int), now).1,
        decreases entries@.len() - i,
    {
        proof {
            assert(all.take(i + 1).drop_last() =~= all.take(i as int));
            assert(all.take(i + 1).last() == entries@[i as int]@);
        }
        match replay_entry_at(store, &entries[i], now) {
            Ok(_) => {
                replayed = replayed + 1;
            },
            Err(_) => {},
        }
        i += 1;
    }
    proof {
        assert(all.take(i as int) =~= all);
    }
    replayed
}

/// Replays `entries` in order into `store` at the instant the store's clock
/// shows; returns how many were applied. It never fails.
pub fn replay_entries(store: &mut MemoryStore, entries: Vec<AofEntry>) -> (r: Result<
    usize,
    String,
>)
    ensures
        exists|now: u64|
            final(store)@ == #[trigger] replay_all(old(store)@, entries_view(entries@), now).0
                && r == Ok::<usize, String>(
                replay_all(old(store)@, entries_view(entries@), now).1 as usize,
            ),
{
    let now = store.now();
    Ok(replay_entries_at(store, &entries, now))
}

} // verus!
