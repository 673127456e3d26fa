//! HSET, HGET, HGETALL, HDEL, HKEYS and HINCRBY.

use vstd::prelude::*;
use crate::aof::entry::AofEntryView;
use crate::aof::entry::AofOperation;
use crate::commands::all_bulk;
use crate::commands::bulks;
use crate::commands::check_all_bulk;
use crate::commands::context::CommandContext;
use crate::commands::context::ContextView;
use crate::commands::err;
use crate::commands::err_reply;
use crate::commands::extract_bulk_string;
use crate::commands::extract_integer;
use crate::commands::integer_arg;
use crate::commands::log_to_aof;
use crate::commands::logged;
use crate::commands::not_bulk;
use crate::commands::record;
use crate::commands::unchanged;
use crate::commands::wrong_args;
use crate::commands::wrong_args_reply;
use crate::commands::wrong_type;
use crate::commands::wrong_type_reply;
use crate::commands::Command;
use crate::commands::Outcome;
use crate::octets::copy_bytes;
use crate::protocol::decimal::decimal;
use crate::protocol::decimal::format_i64;
use crate::protocol::decimal::parse_decimal;
use crate::protocol::decimal::parse_i64;
use crate::protocol::types::frames;
use crate::protocol::types::Frame;
use crate::protocol::types::RespValue;
use crate::store::bytemap::enumerates;
use crate::store::bytemap::ByteMap;
use crate::store::clock::Moment;
use crate::store::entry::EntryView;
use crate::store::memory::evict;
use crate::store::memory::keys_view;
use crate::store::memory::live;
use crate::store::memory::StoreView;
use crate::store::value::hash_view;
use crate::store::value::Value;
use crate::store::value::ValueView;

verus! {

/// The hash `h` after the fields and values of `flat` are put into it, pair
/// by pair: `flat` holds a field, its value, the next field, and so on.
pub open spec fn put_all(h: Map<Seq<u8>, Seq<u8>>, flat: Seq<Seq<u8>>) -> Map<Seq<u8>, Seq<u8>>
    decreases flat.len(),
{
    if flat.len() < 2 {
        h
    } else {
        put_all(h, flat.take(flat.len() - 2)).insert(flat[flat.len() - 2], flat[flat.len() - 1])
    }
}

/// The log entries for the pairs of `flat` put into the hash at `key`: one
/// HSET entry for each pair, in order.
pub open spec fn put_records(key: Seq<u8>, flat: Seq<Seq<u8>>, now: Moment) -> Seq<AofEntryView>
    decreases flat.len(),
{
    if flat.len() < 2 {
        Seq::empty()
    } else {
        put_records(key, flat.take(flat.len() - 2), now).push(
            record(
                AofOperation::HSet,
                key,
                seq![flat[flat.len() - 2], flat[flat.len() - 1]],
                now,
            ),
        )
    }
}

/// The store `m` with the hash `h` as the value under `key`. `fresh` says
/// whether the key gets a fresh entry.
pub open spec fn with_hash(m: StoreView, key: Seq<u8>, h: Map<Seq<u8>, Seq<u8>>, fresh: bool) -> StoreView {
    if fresh {
        m.insert(key, EntryView::fresh(key, ValueView::Hash(h)))
    } else {
        m.insert(key, m[key].with_value(ValueView::Hash(h)))
    }
}

/// `HSET key field value [field value ...]`: puts the pairs into the hash
/// under the key; answers how many fields are new.
pub struct HSetCommand;

/// What `HSET` does.
pub open spec fn hset_outcome(pre: ContextView, args: Seq<Frame>, now: Moment) -> Outcome {
    if args.len() < 3 || (args.len() - 1) % 2 != 0 {
        unchanged(pre, wrong_args("HSET"@))
    } else if !all_bulk(args, 0) {
        unchanged(pre, not_bulk())
    } else {
        let key = args[0]->BulkString_0;
        let flat = bulks(args, 1);
        let is_live = live(pre.store, key, now.monotonic);
        if is_live && !(pre.store[key].value is Hash) {
            unchanged(pre, wrong_type())
        } else {
            let before = if is_live {
                pre.store[key].value->Hash_0
            } else {
                Map::empty()
            };
            let after = put_all(before, flat);
            Outcome {
                post: ContextView {
                    store: with_hash(pre.store, key, after, !is_live),
                    aof: logged(pre.aof, put_records(key, flat, now), now),
                    ..pre
                },
                reply: Frame::Integer((after.len() - before.len()) as i64),
            }
        }
    }
}

/// Puts the pairs of `args`, from position 1 on, into `hash`; returns how
/// many fields are new.
fn put_pairs(hash: &mut ByteMap<Vec<u8>>, args: &[RespValue]) -> (added: usize)
    requires
        args@.len() >= 1,
        (args@.len() - 1) % 2 == 0,
        all_bulk(frames(args@), 0),
    ensures
        hash_view(*final(hash)) == put_all(hash_view(*old(hash)), bulks(frames(args@), 1)),
        hash_view(*old(hash)).dom().finite(),
        added == put_all(hash_view(*old(hash)), bulks(frames(args@), 1)).len() - hash_view(
            *old(hash),
        ).len(),
        added <= (args@.len() - 1) / 2,
{
    let ghost flat = bulks(frames(args@), 1);
    let ghost start = hash_view(*hash);
    let first_len = hash.len();
    proof {
        assert(start.dom() =~= hash.map().dom());
        assert(flat.take(0) =~= Seq::<Seq<u8>>::empty());
    }
    let mut added: usize = 0;
    let mut i: usize = 1;
    while i < args.len()
        invariant
            1 <= i <= args@.len(),
            (i - 1) % 2 == 0,
            (args@.len() - 1) % 2 == 0,
            all_bulk(frames(args@), 0),
            flat == bulks(frames(args@), 1),
            start.dom().finite(),
            hash_view(*hash) == put_all(start, flat.take(i - 1)),
            hash_view(*hash).dom().finite(),
            added == hash_view(*hash).len() - start.len(),
            added <= (i - 1) / 2,
        decreases args@.len() - i,
    {
        let ghost before = hash_view(*hash);
        assert(frames(args@)[i as int] is BulkString);
        assert(frames(args@)[i + 1] is BulkString);
        let field = match &args[i] {
            RespValue::BulkString(b) => copy_bytes(b.as_slice()),
            _ => Vec::new(),
        };
        let value = match &args[i + 1] {
            RespValue::BulkString(b) => copy_bytes(b.as_slice()),
            _ => Vec::new(),
        };
        proof {
            assert(field@ == flat[i - 1]);
            assert(value@ == flat[i as int]);
            let next = flat.take(i + 1);
            assert(next.take(next.len() - 2) =~= flat.take(i - 1));
        }
        let prev = hash.insert(field, value);
        proof {
            assert(hash_view(*hash) =~= before.insert(field@, value@));
            if before.contains_key(field@) {
                assert(before.insert(field@, value@).dom() =~= before.dom());
            } else {
                assert(before.insert(field@, value@).dom() =~= before.dom().insert(field@));
            }
        }
        if prev.is_none() {
            added = added + 1;
        }
        i = i + 2;
    }
    proof {
        assert(flat.take(i - 1) =~= flat);
    }
    added
}

impl Command for HSetCommand {
    open spec fn label(&self) -> Seq<char> {
        "HSET"@
    }

    open spec fn least_args(&self) -> nat {
        3
    }

    open spec fn most_args(&self) -> Option<nat> {
        None
    }

    open spec fn accepts(
        &self,
        pre: ContextView,
        args: Seq<Frame>,
        now: Moment,
        post: ContextView,
        reply: Frame,
    ) -> bool {
        (Outcome { post, reply }) == hset_outcome(pre, args, now)
    }

    fn execute_at(&self, ctx: &mut CommandContext, args: &[RespValue], now: Moment) -> (reply:
        RespValue) {
        if args.len() < 3 {
            return wrong_args_reply("HSET");
        }
        if (args.len() - 1) % 2 != 0 {
            return wrong_args_reply("HSET");
        }
        if !check_all_bulk(args, 0) {
            return err_reply("Expected bulk string");
        }
        let ghost pre = ctx@;
        let ghost flat = bulks(frames(args@), 1);
        assert(frames(args@)[0] is BulkString);
        let key = match &args[0] {
            RespValue::BulkString(b) => copy_bytes(b.as_slice()),
            _ => Vec::new(),
        };
        let added: usize = match ctx.store.get_mut_at(key.as_slice(), now.monotonic) {
            Some(value) => match value.as_hash_mut() {
                Some(hash) => put_pairs(hash, args),
                None => {
                    proof {
                        let e = pre.store[key@];
                        assert(e.with_value(e.value) == e);
                        assert(pre.store.insert(key@, e) =~= pre.store);
                    }
                    return wrong_type_reply();
                },
            },
            None => {
                let mut fresh: ByteMap<Vec<u8>> = ByteMap::new();
                assert(hash_view(fresh) =~= Map::<Seq<u8>, Seq<u8>>::empty());
                let added = put_pairs(&mut fresh, args);
                ctx.store.set(copy_bytes(key.as_slice()), Value::Hash(fresh));
                proof {
                    assert(ctx.store@ =~= with_hash(
                        pre.store,
                        key@,
                        put_all(Map::empty(), flat),
                        true,
                    ));
                }
                added
            },
        };
        let ghost stored = ctx.store@;
        let mut i: usize = 1;
        proof {
            assert(flat.take(0) =~= Seq::<Seq<u8>>::empty());
            assert(pre.aof is Some ==> pre.aof->0.write_all(
                Seq::<AofEntryView>::empty(),
                now.monotonic,
            ) == pre.aof->0);
        }
        while i < args.len()
            invariant
                1 <= i <= args@.len(),
                (i - 1) % 2 == 0,
                (args@.len() - 1) % 2 == 0,
                all_bulk(frames(args@), 0),
                flat == bulks(frames(args@), 1),
                frames(args@)[0] == Frame::BulkString(key@),
                ctx@ == (ContextView {
                    store: stored,
                    aof: logged(pre.aof, put_records(key@, flat.take(i - 1), now), now),
                    ..pre
                }),
            decreases args@.len() - i,
        {
            assert(frames(args@)[i as int] is BulkString);
            assert(frames(args@)[i + 1] is BulkString);
            let field = match &args[i] {
                RespValue::BulkString(b) => copy_bytes(b.as_slice()),
                _ => Vec::new(),
            };
            let value = match &args[i + 1] {
                RespValue::BulkString(b) => copy_bytes(b.as_slice()),
                _ => Vec::new(),
            };
            let mut payload: Vec<Vec<u8>> = Vec::new();
            payload.push(field);
            payload.push(value);
            proof {
                assert(keys_view(payload@) =~= seq![flat[i - 1], flat[i as int]]);
                let next = flat.take(i + 1);
                assert(next.take(next.len() - 2) =~= flat.take(i - 1));
                let done = put_records(key@, flat.take(i - 1), now);
                let entry = record(AofOperation::HSet, key@, keys_view(payload@), now);
                assert(put_records(key@, next, now) == done.push(entry));
                assert(done.push(entry).drop_last() =~= done);
                assert(seq![entry].drop_last() =~= Seq::<AofEntryView>::empty());
                if pre.aof is Some {
                    let w = pre.aof->0.write_all(done, now.monotonic);
                    assert(w.write_all(seq![entry].drop_last(), now.monotonic) == w);
                }
            }
            log_to_aof(ctx, AofOperation::HSet, copy_bytes(key.as_slice()), payload, now);
            i = i + 2;
        }
        proof {
            assert(flat.take(i - 1) =~= flat);
        }
        RespValue::integer(added as i64)
    }

    fn name(&self) -> (r: &'static str) {
        "HSET"
    }

    fn min_args(&self) -> (r: usize) {
        3
    }

    fn max_args(&self) -> (r: Option<usize>) {
        None
    }
}

/// `HGET key field`: the value under the field of the hash under the key.
pub struct HGetCommand;

/// What `HGET` does.
pub open spec fn hget_outcome(pre: ContextView, args: Seq<Frame>, now: Moment) -> Outcome {
    if args.len() < 2 {
        unchanged(pre, wrong_args("HGET"@))
    } else if !(args[0] is BulkString) || !(args[1] is BulkString) {
        unchanged(pre, not_bulk())
    } else {
        let key = args[0]->BulkString_0;
        let field = args[1]->BulkString_0;
        Outcome {
            post: pre.with_store(evict(pre.store, key, now.monotonic)),
            reply: if live(pre.store, key, now.monotonic) {
                match pre.store[key].value {
                    ValueView::Hash(h) => if h.contains_key(field) {
                        Frame::BulkString(h[field])
                    } else {
                        Frame::Null
                    },
                    _ => wrong_type(),
                }
            } else {
                Frame::Null
            },
        }
    }
}

impl Command for HGetCommand {
    open spec fn label(&self) -> Seq<char> {
        "HGET"@
    }

    open spec fn least_args(&self) -> nat {
        2
    }

    open spec fn most_args(&self) -> Option<nat> {
        Some(2)
    }

    open spec fn accepts(
        &self,
        pre: ContextView,
        args: Seq<Frame>,
        now: Moment,
        post: ContextView,
        reply: Frame,
    ) -> bool {
        (Outcome { post, reply }) == hget_outcome(pre, args, now)
    }

    fn execute_at(&self, ctx: &mut CommandContext, args: &[RespValue], now: Moment) -> (reply:
        RespValue) {
        if args.len() < 2 {
            return wrong_args_reply("HGET");
        }
        let key = match extract_bulk_string(&args[0]) {
            Ok(k) => k,
            Err(e) => {
                return err_reply(e);
            },
        };
        let field = match extract_bulk_string(&args[1]) {
            Ok(f) => f,
            Err(e) => {
                return err_reply(e);
            },
        };
        match ctx.store.get_at(key.as_slice(), now.monotonic) {
            Some(value) => match value.as_hash() {
                Some(hash) => match hash.get(field.as_slice()) {
                    Some(v) => RespValue::bulk_string(copy_bytes(v.as_slice())),
                    None => RespValue::null(),
                },
                None => wrong_type_reply(),
            },
            None => RespValue::null(),
        }
    }

    fn name(&self) -> (r: &'static str) {
        "HGET"
    }

    fn min_args(&self) -> (r: usize) {
        2
    }

    fn max_args(&self) -> (r: Option<usize>) {
        Some(2)
    }
}

/// The fields of `order` as bulk strings.
pub open spec fn bulk_frames(order: Seq<Seq<u8>>) -> Seq<Frame> {
    order.map_values(|item: Seq<u8>| Frame::BulkString(item))
}

/// The fields of `order`, each followed by its value in `h`, as bulk
/// strings.
pub open spec fn pair_frames(order: Seq<Seq<u8>>, h: Map<Seq<u8>, Seq<u8>>) -> Seq<Frame> {
    Seq::new(
        2 * order.len(),
        |i: int|
            if i % 2 == 0 {
                Frame::BulkString(order[i / 2])
            } else {
                Frame::BulkString(h[order[i / 2]])
            },
    )
}

/// `HGETALL key`: the fields of the hash under the key, each followed by its
/// value.
pub struct HGetAllCommand;

/// Whether `reply` is an answer of `HGETALL` for the hash `h`: the fields,
/// each once and in any order, each followed by its value.
pub open spec fn lists_pairs(reply: Frame, h: Map<Seq<u8>, Seq<u8>>) -> bool {
    exists|order: Seq<Seq<u8>>|
        enumerates(order, h.dom()) && reply == Frame::Array(#[trigger] pair_frames(order, h))
}

/// Whether `reply` lists the byte strings of `members` as bulk strings, each
/// once and in any order.
pub open spec fn lists_members(reply: Frame, members: Set<Seq<u8>>) -> bool {
    exists|order: Seq<Seq<u8>>|
        enumerates(order, members) && reply == Frame::Array(#[trigger] bulk_frames(order))
}

impl Command for HGetAllCommand {
    open spec fn label(&self) -> Seq<char> {
        "HGETALL"@
    }

    open spec fn least_args(&self) -> nat {
        1
    }

    open spec fn most_args(&self) -> Option<nat> {
        Some(1)
    }

    open spec fn accepts(
        &self,
        pre: ContextView,
        args: Seq<Frame>,
        now: Moment,
        post: ContextView,
        reply: Frame,
    ) -> bool {
        if args.len() == 0 {
            (Outcome { post, reply }) == unchanged(pre, wrong_args("HGETALL"@))
        } else if !(args[0] is BulkString) {
            (Outcome { post, reply }) == unchanged(pre, not_bulk())
        } else {
            let key = args[0]->BulkString_0;
            &&& post == pre.with_store(evict(pre.store, key, now.monotonic))
            &&& if live(pre.store, key, now.monotonic) {
                match pre.store[key].value {
                    ValueView::Hash(h) => lists_pairs(reply, h),
                    _ => reply == wrong_type(),
                }
            } else {
                reply == Frame::Array(Seq::empty())
            }
        }
    }

    fn execute_at(&self, ctx: &mut CommandContext, args: &[RespValue], now: Moment) -> (reply:
        RespValue) {
        if args.len() == 0 {
            return wrong_args_reply("HGETALL");
        }
        let key = match extract_bulk_string(&args[0]) {
            Ok(k) => k,
            Err(e) => {
                return err_reply(e);
            },
        };
        match ctx.store.get_at(key.as_slice(), now.monotonic) {
            Some(value) => match value.as_hash() {
                Some(hash) => {
                    let n = hash.len();
                    let ghost h = hash_view(*hash);
                    let ghost order = hash.order();
                    assert(h.dom() =~= hash.map().dom());
                    let mut result: Vec<RespValue> = Vec::new();
                    let mut i: usize = 0;
                    while i < n
                        invariant
                            n == hash.order().len(),
                            order == hash.order(),
                            h == hash_view(*hash),
                            i <= n,
                            frames(result@) == pair_frames(order.take(i as int), h),
                        decreases n - i,
                    {
                        let ghost before = frames(result@);
                        let field = RespValue::bulk_string(copy_bytes(hash.key_at(i).as_slice()));
                        let value = RespValue::bulk_string(
                            copy_bytes(hash.value_at(i).as_slice()),
                        );
                        result.push(field);
                        result.push(value);
                        proof {
                            assert(frames(result@) =~= before.push(field@).push(value@));
                            assert(frames(result@) =~= pair_frames(order.take(i + 1), h));
                        }
                        i += 1;
                    }
                    proof {
                        assert(order.take(i as int) =~= order);
                    }
                    RespValue::array(result)
                },
                None => wrong_type_reply(),
            },
            None => {
                let r = RespValue::array(Vec::new());
                assert(frames(Seq::<RespValue>::empty()) =~= Seq::<Frame>::empty());
                r
            },
        }
    }

    fn name(&self) -> (r: &'static str) {
        "HGETALL"
    }

    fn min_args(&self) -> (r: usize) {
        1
    }

    fn max_args(&self) -> (r: Option<usize>) {
        Some(1)
    }
}

/// `HKEYS key`: the fields of the hash under the key.
pub struct HKeysCommand;

impl Command for HKeysCommand {
    open spec fn label(&self) -> Seq<char> {
        "HKEYS"@
    }

    open spec fn least_args(&self) -> nat {
        1
    }

    open spec fn most_args(&self) -> Option<nat> {
        Some(1)
    }

    open spec fn accepts(
        &self,
        pre: ContextView,
        args: Seq<Frame>,
        now: Moment,
        post: ContextView,
        reply: Frame,
    ) -> bool {
        if args.len() == 0 {
            (Outcome { post, reply }) == unchanged(pre, wrong_args("HKEYS"@))
        } else if !(args[0] is BulkString) {
            (Outcome { post, reply }) == unchanged(pre, not_bulk())
        } else {
            let key = args[0]->BulkString_0;
            &&& post == pre.with_store(evict(pre.store, key, now.monotonic))
            &&& if live(pre.store, key, now.monotonic) {
                match pre.store[key].value {
                    ValueView::Hash(h) => lists_members(reply, h.dom()),
                    _ => reply == wrong_type(),
                }
            } else {
                reply == Frame::Array(Seq::empty())
            }
        }
    }

    fn execute_at(&self, ctx: &mut CommandContext, args: &[RespValue], now: Moment) -> (reply:
        RespValue) {
        if args.len() == 0 {
            return wrong_args_reply("HKEYS");
        }
        let key = match extract_bulk_string(&args[0]) {
            Ok(k) => k,
            Err(e) => {
                return err_reply(e);
            },
        };
        match ctx.store.get_at(key.as_slice(), now.monotonic) {
            Some(value) => match value.as_hash() {
                Some(hash) => {
                    let n = hash.len();
                    let ghost order = hash.order();
                    assert(hash_view(*hash).dom() =~= hash.map().dom());
                    let mut result: Vec<RespValue> = Vec::new();
                    let mut i: usize = 0;
                    while i < n
                        invariant
                            n == hash.order().len(),
                            order == hash.order(),
                            i <= n,
                            frames(result@) == bulk_frames(order.take(i as int)),
                        decreases n - i,
                    {
                        let ghost before = frames(result@);
                        let field = RespValue::bulk_string(copy_bytes(hash.key_at(i).as_slice()));
                        result.push(field);
                        proof {
                            assert(frames(result@) =~= before.push(field@));
                            assert(frames(result@) =~= bulk_frames(order.take(i + 1)));
                        }
                        i += 1;
                    }
                    proof {
                        assert(order.take(i as int) =~= order);
                    }
                    RespValue::array(result)
                },
                None => wrong_type_reply(),
            },
            None => {
                let r = RespValue::array(Vec::new());
                assert(frames(Seq::<RespValue>::empty()) =~= Seq::<Frame>::empty());
                r
            },
        }
    }

    fn name(&self) -> (r: &'static str) {
        "HKEYS"
    }

    fn min_args(&self) -> (r: usize) {
        1
    }

    fn max_args(&self) -> (r: Option<usize>) {
        Some(1)
    }
}

/// The hash `h` without the fields `fields`.
pub open spec fn drop_all(h: Map<Seq<u8>, Seq<u8>>, fields: Seq<Seq<u8>>) -> Map<Seq<u8>, Seq<u8>>
    decreases fields.len(),
{
    if fields.len() == 0 {
        h
    } else {
        drop_all(h, fields.drop_last()).remove(fields.last())
    }
}

/// The fields among `fields` that are taken out of `h` when `fields` are
/// removed in order: each field that is still there at its turn.
pub open spec fn dropped(h: Map<Seq<u8>, Seq<u8>>, fields: Seq<Seq<u8>>) -> Seq<Seq<u8>>
    decreases fields.len(),
{
    if fields.len() == 0 {
        Seq::empty()
    } else if drop_all(h, fields.drop_last()).contains_key(fields.last()) {
        dropped(h, fields.drop_last()).push(fields.last())
    } else {
        dropped(h, fields.drop_last())
    }
}

/// The log entries for the fields `fields` taken out of the hash at `key`:
/// one HDEL entry for each, in order.
pub open spec fn drop_records(key: Seq<u8>, fields: Seq<Seq<u8>>, now: Moment) -> Seq<AofEntryView> {
    fields.map_values(|field: Seq<u8>| record(AofOperation::HDel, key, seq![field], now))
}

/// `HDEL key field [field ...]`: takes the fields out of the hash under the
/// key; answers how many were there.
pub struct HDelCommand;

/// What `HDEL` does.
pub open spec fn hdel_outcome(pre: ContextView, args: Seq<Frame>, now: Moment) -> Outcome {
    if args.len() < 2 {
        unchanged(pre, wrong_args("HDEL"@))
    } else if !all_bulk(args, 0) {
        unchanged(pre, not_bulk())
    } else {
        let key = args[0]->BulkString_0;
        let fields = bulks(args, 1);
        if !live(pre.store, key, now.monotonic) {
            Outcome {
                post: pre.with_store(evict(pre.store, key, now.monotonic)),
                reply: Frame::Integer(0),
            }
        } else if !(pre.store[key].value is Hash) {
            unchanged(pre, wrong_type())
        } else {
            let h = pre.store[key].value->Hash_0;
            Outcome {
                post: ContextView {
                    store: with_hash(pre.store, key, drop_all(h, fields), false),
                    aof: logged(pre.aof, drop_records(key, dropped(h, fields), now), now),
                    ..pre
                },
                reply: Frame::Integer(dropped(h, fields).len() as i64),
            }
        }
    }
}

/// Takes the fields of `args`, from position 1 on, out of `hash`; returns
/// those that were there.
fn drop_fields(hash: &mut ByteMap<Vec<u8>>, args: &[RespValue]) -> (gone: Vec<Vec<u8>>)
    requires
        args@.len() >= 1,
        all_bulk(frames(args@), 0),
    ensures
        hash_view(*final(hash)) == drop_all(hash_view(*old(hash)), bulks(frames(args@), 1)),
        keys_view(gone@) == dropped(hash_view(*old(hash)), bulks(frames(args@), 1)),
        gone@.len() <= args@.len() - 1,
{
    let ghost fields = bulks(frames(args@), 1);
    let ghost start = hash_view(*hash);
    let mut gone: Vec<Vec<u8>> = Vec::new();
    let mut i: usize = 1;
    proof {
        assert(fields.take(0) =~= Seq::<Seq<u8>>::empty());
        assert(keys_view(gone@) =~= Seq::<Seq<u8>>::empty());
    }
    while i < args.len()
        invariant
            1 <= i <= args@.len(),
            all_bulk(frames(args@), 0),
            fields == bulks(frames(args@), 1),
            hash_view(*hash) == drop_all(start, fields.take(i - 1)),
            keys_view(gone@) == dropped(start, fields.take(i - 1)),
            gone@.len() <= i - 1,
        decreases args@.len() - i,
    {
        let ghost before = hash_view(*hash);
        let ghost listed = keys_view(gone@);
        assert(frames(args@)[i as int] is BulkString);
        match &args[i] {
            RespValue::BulkString(field) => {
                proof {
                    assert(field@ == fields[i - 1]);
                    assert(fields.take(i as int).drop_last() =~= fields.take(i - 1));
                    assert(before.contains_key(field@) <==> hash.map().contains_key(field@));
                }
                let prev = hash.remove(field.as_slice());
                proof {
                    assert(hash_view(*hash) =~= before.remove(field@));
                }
                if prev.is_some() {
                    gone.push(copy_bytes(field.as_slice()));
                    assert(keys_view(gone@) =~= listed.push(field@));
                }
            },
            _ => {},
        }
        i += 1;
    }
    proof {
        assert(fields.take(i - 1) =~= fields);
    }
    gone
}

impl Command for HDelCommand {
    open spec fn label(&self) -> Seq<char> {
        "HDEL"@
    }

    open spec fn least_args(&self) -> nat {
        2
    }

    open spec fn most_args(&self) -> Option<nat> {
        None
    }

    open spec fn accepts(
        &self,
        pre: ContextView,
        args: Seq<Frame>,
        now: Moment,
        post: ContextView,
        reply: Frame,
    ) -> bool {
        (Outcome { post, reply }) == hdel_outcome(pre, args, now)
    }

    fn execute_at(&self, ctx: &mut CommandContext, args: &[RespValue], now: Moment) -> (reply:
        RespValue) {
        if args.len() < 2 {
            return wrong_args_reply("HDEL");
        }
        if !check_all_bulk(args, 0) {
            return err_reply("Expected bulk string");
        }
        let ghost pre = ctx@;
        assert(frames(args@)[0] is BulkString);
        let key = match &args[0] {
            RespValue::BulkString(b) => copy_bytes(b.as_slice()),
            _ => Vec::new(),
        };
        let gone: Vec<Vec<u8>> = match ctx.store.get_mut_at(key.as_slice(), now.monotonic) {
            Some(value) => match value.as_hash_mut() {
                Some(hash) => drop_fields(hash, args),
                None => {
                    proof {
                        let e = pre.store[key@];
                        assert(e.with_value(e.value) == e);
                        assert(pre.store.insert(key@, e) =~= pre.store);
                    }
                    return wrong_type_reply();
                },
            },
            None => {
                return RespValue::integer(0);
            },
        };
        let ghost stored = ctx.store@;
        let ghost all = keys_view(gone@);
        let mut i: usize = 0;
        proof {
            assert(drop_records(key@, all.take(0), now) =~= Seq::<AofEntryView>::empty());
            assert(pre.aof is Some ==> pre.aof->0.write_all(
                Seq::<AofEntryView>::empty(),
                now.monotonic,
            ) == pre.aof->0);
        }
        while i < gone.len()
            invariant
                i <= gone@.len(),
                all == keys_view(gone@),
                ctx@ == (ContextView {
                    store: stored,
                    aof: logged(pre.aof, drop_records(key@, all.take(i as int), now), now),
                    ..pre
                }),
            decreases gone@.len() - i,
        {
            let mut payload: Vec<Vec<u8>> = Vec::new();
            payload.push(copy_bytes(gone[i].as_slice()));
            proof {
                assert(keys_view(payload@) =~= seq![all[i as int]]);
                let done = drop_records(key@, all.take(i as int), now);
                let entry = record(AofOperation::HDel, key@, keys_view(payload@), now);
                assert(drop_records(key@, all.take(i + 1), now) =~= done.push(entry));
                assert(done.push(entry).drop_last() =~= done);
                assert(seq![entry].drop_last() =~= Seq::<AofEntryView>::empty());
                if pre.aof is Some {
                    let w = pre.aof->0.write_all(done, now.monotonic);
                    assert(w.write_all(seq![entry].drop_last(), now.monotonic) == w);
                }
            }
            log_to_aof(ctx, AofOperation::HDel, copy_bytes(key.as_slice()), payload, now);
            i += 1;
        }
        proof {
            assert(all.take(i as int) =~= all);
        }
        RespValue::integer(gone.len() as i64)
    }

    fn name(&self) -> (r: &'static str) {
        "HDEL"
    }

    fn min_args(&self) -> (r: usize) {
        2
    }

    fn max_args(&self) -> (r: Option<usize>) {
        None
    }
}

/// The reply for a field whose value is no number.
pub open spec fn not_a_hash_number() -> Frame {
    err("hash value is not an integer"@)
}

/// `HINCRBY key field increment`: adds the increment to the number under
/// the field of the hash under the key.
pub struct HIncrByCommand;

/// What `HINCRBY` does.
pub open spec fn hincrby_outcome(pre: ContextView, args: Seq<Frame>, now: Moment) -> Outcome {
    if args.len() < 3 {
        unchanged(pre, wrong_args("HINCRBY"@))
    } else if !(args[0] is BulkString) || !(args[1] is BulkString) {
        unchanged(pre, not_bulk())
    } else {
        match integer_arg(args[2]) {
            Err(e) => unchanged(pre, err(e)),
            Ok(n) => {
                let key = args[0]->BulkString_0;
                let field = args[1]->BulkString_0;
                let is_live = live(pre.store, key, now.monotonic);
                if is_live && !(pre.store[key].value is Hash) {
                    unchanged(pre, wrong_type())
                } else {
                    let h = if is_live {
                        pre.store[key].value->Hash_0
                    } else {
                        Map::empty()
                    };
                    let current = if h.contains_key(field) {
                        parse_decimal(h[field])
                    } else {
                        Some(0i64)
                    };
                    match current {
                        None => unchanged(pre, not_a_hash_number()),
                        Some(base) => if i64::MIN <= base + n <= i64::MAX {
                            let value = (base + n) as i64;
                            let text = decimal(value as int);
                            Outcome {
                                post: ContextView {
                                    store: with_hash(pre.store, key, h.insert(field, text), !is_live),
                                    aof: logged(
                                        pre.aof,
                                        seq![record(AofOperation::HSet, key, seq![field, text], now)],
                                        now,
                                    ),
                                    ..pre
                                },
                                reply: Frame::Integer(value),
                            }
                        } else {
                            unchanged(pre, Frame::Error("ERR increment would overflow"@))
                        },
                    }
                }
            },
        }
    }
}

/// The outcome of adding to a field.
enum FieldStep {
    Value(i64),
    NotANumber,
    Overflow,
}

/// Adds `n` to the number under `field` of `hash`.
fn add_to_field(hash: &mut ByteMap<Vec<u8>>, field: &[u8], n: i64) -> (r: FieldStep)
    ensures
        ({
            let h = hash_view(*old(hash));
            let current = if h.contains_key(field@) {
                parse_decimal(h[field@])
            } else {
                Some(0i64)
            };
            match r {
                FieldStep::Value(v) => current is Some && v == current->0 + n && hash_view(
                    *final(hash),
                ) == h.insert(field@, decimal(v as int)),
                FieldStep::NotANumber => current is None && hash_view(*final(hash)) == h,
                FieldStep::Overflow => current is Some && !(i64::MIN <= current->0 + n
                    <= i64::MAX) && hash_view(*final(hash)) == h,
            }
        }),
{
    let ghost h = hash_view(*hash);
    let current: i64 = match hash.get(field) {
        Some(bytes) => match parse_i64(bytes.as_slice()) {
            Some(i) => i,
            None => {
                return FieldStep::NotANumber;
            },
        },
        None => 0,
    };
    match current.checked_add(n) {
        Some(v) => {
            let _ = hash.insert(copy_bytes(field), format_i64(v));
            assert(hash_view(*hash) =~= h.insert(field@, decimal(v as int)));
            FieldStep::Value(v)
        },
        None => FieldStep::Overflow,
    }
}

impl Command for HIncrByCommand {
    open spec fn label(&self) -> Seq<char> {
        "HINCRBY"@
    }

    open spec fn least_args(&self) -> nat {
        3
    }

    open spec fn most_args(&self) -> Option<nat> {
        Some(3)
    }

    open spec fn accepts(
        &self,
        pre: ContextView,
        args: Seq<Frame>,
        now: Moment,
        post: ContextView,
        reply: Frame,
    ) -> bool {
        (Outcome { post, reply }) == hincrby_outcome(pre, args, now)
    }

    fn execute_at(&self, ctx: &mut CommandContext, args: &[RespValue], now: Moment) -> (reply:
        RespValue) {
        if args.len() < 3 {
            return wrong_args_reply("HINCRBY");
        }
        let key = match extract_bulk_string(&args[0]) {
            Ok(k) => copy_bytes(k.as_slice()),
            Err(e) => {
                return err_reply(e);
            },
        };
        let field = match extract_bulk_string(&args[1]) {
            Ok(f) => copy_bytes(f.as_slice()),
            Err(e) => {
                return err_reply(e);
            },
        };
        let increment = match extract_integer(&args[2]) {
            Ok(i) => i,
            Err(e) => {
                return err_reply(e);
            },
        };
        let ghost pre = ctx@;
        proof {
            if pre.store.contains_key(key@) {
                let e = pre.store[key@];
                assert(e.with_value(e.value) == e);
                assert(pre.store.insert(key@, e) =~= pre.store);
            }
        }
        let step = match ctx.store.get_mut_at(key.as_slice(), now.monotonic) {
            Some(value) => match value.as_hash_mut() {
                Some(hash) => add_to_field(hash, field.as_slice(), increment),
                None => {
                    return wrong_type_reply();
                },
            },
            None => {
                let mut fresh: ByteMap<Vec<u8>> = ByteMap::new();
                assert(hash_view(fresh) =~= Map::<Seq<u8>, Seq<u8>>::empty());
                let step = add_to_field(&mut fresh, field.as_slice(), increment);
                let ghost made = hash_view(fresh);
                ctx.store.set(copy_bytes(key.as_slice()), Value::Hash(fresh));
                proof {
                    assert(ctx.store@ =~= with_hash(pre.store, key@, made, true));
                }
                step
            },
        };
        match step {
            FieldStep::NotANumber => err_reply("hash value is not an integer"),
            FieldStep::Overflow => RespValue::error("ERR increment would overflow"),
            FieldStep::Value(v) => {
                let mut payload: Vec<Vec<u8>> = Vec::new();
                payload.push(field);
                payload.push(format_i64(v));
                assert(keys_view(payload@) =~= seq![field@, decimal(v as int)]);
                log_to_aof(ctx, AofOperation::HSet, key, payload, now);
                RespValue::integer(v)
            },
        }
    }

    fn name(&self) -> (r: &'static str) {
        "HINCRBY"
    }

    fn min_args(&self) -> (r: usize) {
        3
    }

    fn max_args(&self) -> (r: Option<usize>) {
        Some(3)
    }
}

} // verus!
