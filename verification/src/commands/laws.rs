//! What holds of the log that the commands write: replayed, it gives the
//! store that the commands left.

use vstd::prelude::*;
use crate::aof::entry::entry_bytes;
use crate::aof::entry::fits_format;
use crate::aof::entry::AofEntryView;
use crate::aof::entry::AofOperation;
use crate::aof::laws::lemma_entry_round_trip;
use crate::aof::laws::lemma_log_round_trip;
use crate::aof::laws::log_bytes;
use crate::aof::reader::decode_all;
use crate::aof::replay::replay_all;
use crate::aof::replay::replay_one;
use crate::aof::writer::WriterView;
use crate::commands::all_bulk;
use crate::commands::bulks;
use crate::commands::context::ContextView;
use crate::commands::hash::hset_outcome;
use crate::commands::hash::put_all;
use crate::commands::hash::put_records;
use crate::commands::hash::with_hash;
use crate::commands::key::del_outcome;
use crate::commands::key::delete_all;
use crate::commands::key::delete_records;
use crate::commands::record;
use crate::aof::replay::number_of;
use crate::aof::replay::Number;
use crate::commands::counter::counter_value;
use crate::commands::counter::incr_outcome;
use crate::commands::hash::hincrby_outcome;
use crate::commands::integer_arg;
use crate::commands::string::set_outcome;
use crate::commands::ttl::expire_outcome;
use crate::protocol::decimal::decimal;
use crate::protocol::laws::lemma_decimal_header;
use crate::protocol::resp::header_number;
use crate::protocol::resp::Header;
use crate::protocol::types::Frame;
use crate::store::clock::Moment;
use crate::store::memory::live;
use crate::store::memory::StoreView;

verus! {

/// Entries after entries are on disk the bytes of the first, then those of
/// the rest.
pub proof fn lemma_log_bytes_push(entries: Seq<AofEntryView>, last: AofEntryView)
    ensures
        log_bytes(entries.push(last)) == log_bytes(entries) + entry_bytes(last),
    decreases entries.len(),
{
    let whole = entries.push(last);
    if entries.len() == 0 {
        assert(whole.drop_first() =~= Seq::<AofEntryView>::empty());
        assert(log_bytes(whole.drop_first()) =~= Seq::<u8>::empty());
        assert(whole[0] == last);
        assert(log_bytes(whole) =~= log_bytes(entries) + entry_bytes(last));
    } else {
        lemma_log_bytes_push(entries.drop_first(), last);
        assert(whole.drop_first() =~= entries.drop_first().push(last));
        assert(whole[0] == entries[0]);
        assert(log_bytes(whole) =~= log_bytes(entries) + entry_bytes(last));
    }
}

/// What a writer has pending after entries are written is what it had
/// pending before, then the bytes of the entries.
pub proof fn lemma_pending(w: WriterView, entries: Seq<AofEntryView>, now: u64)
    ensures
        w.write_all(entries, now).pending == w.pending + log_bytes(entries),
        w.write_all(entries, now).policy == w.policy,
    decreases entries.len(),
{
    if entries.len() == 0 {
        assert(log_bytes(entries) =~= Seq::<u8>::empty());
        assert(w.pending + log_bytes(entries) =~= w.pending);
    } else {
        lemma_pending(w, entries.drop_last(), now);
        lemma_log_bytes_push(entries.drop_last(), entries.last());
        assert(entries.drop_last().push(entries.last()) =~= entries);
        assert(w.write_all(entries, now).pending =~= w.pending + log_bytes(entries));
    }
}

/// What is written to an empty log reads back: the entries that a writer
/// with nothing pending is given are the entries that its pending bytes
/// hold.
pub proof fn lemma_written_reads_back(w: WriterView, entries: Seq<AofEntryView>, now: u64)
    requires
        w.pending.len() == 0,
        forall|i: int| 0 <= i < entries.len() ==> fits_format(#[trigger] entries[i]),
    ensures
        decode_all(w.write_all(entries, now).pending) == entries,
{
    lemma_pending(w, entries, now);
    lemma_log_round_trip(entries);
    assert(w.pending + log_bytes(entries) =~= log_bytes(entries));
}

/// `SET` replays: the entry that `SET` logs, replayed into the store that
/// `SET` found, gives the store that `SET` left.
pub proof fn lemma_set_replays(pre: ContextView, args: Seq<Frame>, now: Moment)
    requires
        args.len() >= 2,
        args[0] is BulkString,
        args[1] is BulkString,
    ensures
        replay_one(
            pre.store,
            record(
                AofOperation::SetKey,
                args[0]->BulkString_0,
                seq![args[1]->BulkString_0],
                now,
            ),
            now.monotonic,
        ) == (set_outcome(pre, args, now).post.store, None::<crate::aof::replay::ReplayError>),
{
}

/// Pairs put into a hash replay: the entries logged for the pairs of
/// `flat`, replayed in order into `m`, give `m` with the pairs put into the
/// hash under `key`.
pub proof fn lemma_pairs_replay(m: StoreView, key: Seq<u8>, flat: Seq<Seq<u8>>, now: Moment)
    requires
        flat.len() >= 2,
        flat.len() % 2 == 0,
        live(m, key, now.monotonic) ==> m[key].value is Hash,
    ensures
        ({
            let is_live = live(m, key, now.monotonic);
            let before = if is_live {
                m[key].value->Hash_0
            } else {
                Map::empty()
            };
            replay_all(m, put_records(key, flat, now), now.monotonic) == (
                with_hash(m, key, put_all(before, flat), !is_live),
                (flat.len() / 2) as nat,
            )
        }),
        put_records(key, flat, now).len() == flat.len() / 2,
    decreases flat.len(),
{
    let t = now.monotonic;
    let is_live = live(m, key, t);
    let before = if is_live {
        m[key].value->Hash_0
    } else {
        Map::empty()
    };
    let n = flat.len() as int;
    let head = flat.take(n - 2);
    let entry = record(AofOperation::HSet, key, seq![flat[n - 2], flat[n - 1]], now);
    let records = put_records(key, flat, now);
    assert(records == put_records(key, head, now).push(entry));
    assert(records.drop_last() =~= put_records(key, head, now));
    assert(records.last() == entry);
    if n == 2 {
        assert(head =~= Seq::<Seq<u8>>::empty());
        assert(put_records(key, head, now) =~= Seq::<AofEntryView>::empty());
        assert(put_all(before, head) == before);
        assert(replay_all(m, records.drop_last(), t) == (m, 0nat));
        if is_live {
            assert(replay_one(m, entry, t).0 =~= with_hash(m, key, put_all(before, flat), false));
        } else {
            assert(replay_one(m, entry, t).0 =~= with_hash(m, key, put_all(before, flat), true));
        }
    } else {
        lemma_pairs_replay(m, key, head, now);
        let middle = with_hash(m, key, put_all(before, head), !is_live);
        assert(replay_all(m, records.drop_last(), t) == (middle, (head.len() / 2) as nat));
        assert(live(middle, key, t));
        assert(middle[key].value == crate::store::value::ValueView::Hash(put_all(before, head)));
        assert(replay_one(middle, entry, t).0 =~= with_hash(
            m,
            key,
            put_all(before, flat),
            !is_live,
        ));
    }
}

/// `HSET` replays: the entries that `HSET` logs, replayed in order into the
/// store that `HSET` found, give the store that `HSET` left.
pub proof fn lemma_hset_replays(pre: ContextView, args: Seq<Frame>, now: Moment)
    requires
        args.len() >= 3,
        (args.len() - 1) % 2 == 0,
        all_bulk(args, 0),
        live(pre.store, args[0]->BulkString_0, now.monotonic)
            ==> pre.store[args[0]->BulkString_0].value is Hash,
    ensures
        replay_all(
            pre.store,
            put_records(args[0]->BulkString_0, bulks(args, 1), now),
            now.monotonic,
        ).0 == hset_outcome(pre, args, now).post.store,
{
    lemma_pairs_replay(pre.store, args[0]->BulkString_0, bulks(args, 1), now);
}

/// The text of a number, read from a payload, is the number.
pub proof fn lemma_number_of_decimal(n: i64)
    ensures
        number_of(decimal(n as int)) == Number::Value(n),
{
    lemma_decimal_header(n);
    assert(header_number(decimal(n as int)) == Header::Number(n));
}

/// `EXPIRE` replays: where `EXPIRE` answers 1, the entry that it logs,
/// replayed at the same instant into the store that `EXPIRE` found, gives
/// the store that `EXPIRE` left.
pub proof fn lemma_expire_replays(pre: ContextView, args: Seq<Frame>, now: Moment)
    requires
        args.len() >= 2,
        args[0] is BulkString,
        integer_arg(args[1]) is Ok,
        live(pre.store, args[0]->BulkString_0, now.monotonic),
    ensures
        replay_one(
            pre.store,
            record(
                AofOperation::Expire,
                args[0]->BulkString_0,
                seq![decimal(integer_arg(args[1])->Ok_0 as int)],
                now,
            ),
            now.monotonic,
        ) == (expire_outcome(pre, args, now).post.store, None::<crate::aof::replay::ReplayError>),
        expire_outcome(pre, args, now).reply == Frame::Integer(1),
{
    lemma_number_of_decimal(integer_arg(args[1])->Ok_0);
}

/// `HINCRBY` replays: where `HINCRBY` answers with a number, the entry that
/// it logs, replayed into the store that `HINCRBY` found, gives the store
/// that `HINCRBY` left.
pub proof fn lemma_hincrby_replays(pre: ContextView, args: Seq<Frame>, now: Moment)
    requires
        args.len() >= 3,
        args[0] is BulkString,
        args[1] is BulkString,
        integer_arg(args[2]) is Ok,
        hincrby_outcome(pre, args, now).reply is Integer,
    ensures
        ({
            let value = hincrby_outcome(pre, args, now).reply->Integer_0;
            replay_one(
                pre.store,
                record(
                    AofOperation::HSet,
                    args[0]->BulkString_0,
                    seq![args[1]->BulkString_0, decimal(value as int)],
                    now,
                ),
                now.monotonic,
            ).0 == hincrby_outcome(pre, args, now).post.store
        }),
{
    let key = args[0]->BulkString_0;
    let field = args[1]->BulkString_0;
    let value = hincrby_outcome(pre, args, now).reply->Integer_0;
    let entry = record(AofOperation::HSet, key, seq![field, decimal(value as int)], now);
    assert(replay_one(pre.store, entry, now.monotonic).0 =~= hincrby_outcome(
        pre,
        args,
        now,
    ).post.store);
}

/// `INCR` replays: where `INCR` answers with a number, the entry that it
/// logs, replayed into the store that `INCR` found, leaves under the key the
/// text of that number, which counts as the number.
pub proof fn lemma_incr_replays(pre: ContextView, args: Seq<Frame>, now: Moment)
    requires
        args.len() >= 1,
        args[0] is BulkString,
        incr_outcome(pre, args, now).reply is Integer,
    ensures
        ({
            let key = args[0]->BulkString_0;
            let value = incr_outcome(pre, args, now).reply->Integer_0;
            let replayed = replay_one(
                pre.store,
                record(AofOperation::SetKey, key, seq![decimal(value as int)], now),
                now.monotonic,
            ).0;
            &&& counter_value(pre.with_store(replayed), key, now) == Some(value as int)
            &&& counter_value(incr_outcome(pre, args, now).post, key, now) == Some(value as int)
        }),
{
    let value = incr_outcome(pre, args, now).reply->Integer_0;
    crate::protocol::decimal::lemma_parse_decimal_of_decimal(value);
}

/// Deleted keys replay: where none of `keys` has expired at `now`, the
/// entries logged for the keys that were deleted, replayed in order into
/// `m`, give the store that deleting `keys` left.
pub proof fn lemma_deletes_replay(m: StoreView, keys: Seq<Seq<u8>>, now: Moment)
    requires
        forall|i: int|
            0 <= i < keys.len() && m.contains_key(#[trigger] keys[i]) ==> !m[keys[i]].is_expired(
                now.monotonic,
            ),
    ensures
        replay_all(
            m,
            delete_records(delete_all(m, keys, now.monotonic).1, now),
            now.monotonic,
        ) == (
            delete_all(m, keys, now.monotonic).0,
            delete_all(m, keys, now.monotonic).1.len(),
        ),
        delete_all(m, keys, now.monotonic).0.submap_of(m),
    decreases keys.len(),
{
    let t = now.monotonic;
    if keys.len() == 0 {
        assert(delete_records(Seq::empty(), now) =~= Seq::<AofEntryView>::empty());
    } else {
        let head = keys.drop_last();
        let k = keys.last();
        assert forall|i: int| 0 <= i < head.len() && m.contains_key(#[trigger] head[i])
            implies !m[head[i]].is_expired(t) by {
            assert(head[i] == keys[i]);
        }
        lemma_deletes_replay(m, head, now);
        let (before, gone) = delete_all(m, head, t);
        let last = keys.len() - 1;
        assert(keys[last] == k);
        assert(before == delete_all(m, head, t).0);
        assert(before.submap_of(m));
        if before.contains_key(k) {
            assert(before.dom().contains(k));
            assert(m.dom().contains(k));
            assert(m.contains_key(keys[last]));
            assert(!m[keys[last]].is_expired(t));
            assert(before[k] == m[k]);
        }
        assert(delete_all(m, keys, t).0 == before.remove(k));
        assert(before.remove(k).submap_of(m)) by {
            assert forall|q: Seq<u8>| #[trigger] before.remove(k).dom().contains(q) implies m.dom().contains(
                q,
            ) && before.remove(k)[q] == m[q] by {
                assert(q != k);
                assert(before.dom().contains(q));
                assert(before.contains_key(q));
                assert(m.dom().contains(q));
                assert(before[q] == m[q]);
                assert(before.remove(k)[q] == before[q]);
            }
        }
        if live(before, k, t) {
            let entry = record(AofOperation::Del, k, Seq::empty(), now);
            let records = delete_records(gone.push(k), now);
            assert(records =~= delete_records(gone, now).push(entry));
            assert(records.drop_last() =~= delete_records(gone, now));
            assert(records.last() == entry);
        } else {
            assert(!before.contains_key(k));
            assert(before.remove(k) =~= before);
        }
    }
}

/// `DEL` replays: where none of its keys has expired, the entries that
/// `DEL` logs, replayed in order into the store that `DEL` found, give the
/// store that `DEL` left.
pub proof fn lemma_del_replays(pre: ContextView, args: Seq<Frame>, now: Moment)
    requires
        args.len() >= 1,
        all_bulk(args, 0),
        forall|i: int|
            0 <= i < args.len() && pre.store.contains_key((#[trigger] args[i])->BulkString_0)
                ==> !pre.store[args[i]->BulkString_0].is_expired(now.monotonic),
    ensures
        replay_all(
            pre.store,
            delete_records(delete_all(pre.store, bulks(args, 0), now.monotonic).1, now),
            now.monotonic,
        ).0 == del_outcome(pre, args, now).post.store,
{
    let keys = bulks(args, 0);
    assert forall|i: int| 0 <= i < keys.len() && pre.store.contains_key(#[trigger] keys[i])
        implies !pre.store[keys[i]].is_expired(now.monotonic) by {
        assert(keys[i] == args[i]->BulkString_0);
    }
    lemma_deletes_replay(pre.store, keys, now);
}

} // verus!
