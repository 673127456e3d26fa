//! DEL and EXISTS.

use vstd::prelude::*;
use crate::aof::entry::AofEntryView;
use crate::aof::entry::AofOperation;
use crate::commands::all_bulk;
use crate::commands::bulks;
use crate::commands::check_all_bulk;
use crate::commands::context::CommandContext;
use crate::commands::context::ContextView;
use crate::commands::err_reply;
use crate::commands::log_to_aof;
use crate::commands::logged;
use crate::commands::not_bulk;
use crate::commands::record;
use crate::commands::unchanged;
use crate::commands::wrong_args;
use crate::commands::wrong_args_reply;
use crate::commands::Command;
use crate::commands::Outcome;
use crate::octets::copy_bytes;
use crate::protocol::types::frames;
use crate::protocol::types::Frame;
use crate::protocol::types::RespValue;
use crate::store::clock::Moment;
use crate::store::memory::evict;
use crate::store::memory::keys_view;
use crate::store::memory::live;
use crate::store::memory::StoreView;

verus! {

/// The store `m` after `keys` are deleted in order at `now`, and the keys
/// that were present at their turn.
pub open spec fn delete_all(m: StoreView, keys: Seq<Seq<u8>>, now: u64) -> (StoreView, Seq<Seq<u8>>)
    decreases keys.len(),
{
    if keys.len() == 0 {
        (m, Seq::empty())
    } else {
        let (before, gone) = delete_all(m, keys.drop_last(), now);
        (
            before.remove(keys.last()),
            if live(before, keys.last(), now) {
                gone.push(keys.last())
            } else {
                gone
            },
        )
    }
}

/// The log entries for the deleted keys `keys`: one DEL entry for each, in
/// order.
pub open spec fn delete_records(keys: Seq<Seq<u8>>, now: Moment) -> Seq<AofEntryView> {
    keys.map_values(|key: Seq<u8>| record(AofOperation::Del, key, Seq::empty(), now))
}

/// `DEL key [key ...]`: deletes the keys; answers how many were present.
pub struct DelCommand;

/// What `DEL` does.
pub open spec fn del_outcome(pre: ContextView, args: Seq<Frame>, now: Moment) -> Outcome {
    if args.len() == 0 {
        unchanged(pre, wrong_args("DEL"@))
    } else if !all_bulk(args, 0) {
        unchanged(pre, not_bulk())
    } else {
        let (store, gone) = delete_all(pre.store, bulks(args, 0), now.monotonic);
        Outcome {
            post: ContextView {
                store,
                aof: logged(pre.aof, delete_records(gone, now), now),
                ..pre
            },
            reply: Frame::Integer(gone.len() as i64),
        }
    }
}

impl Command for DelCommand {
    open spec fn label(&self) -> Seq<char> {
        "DEL"@
    }

    open spec fn least_args(&self) -> nat {
        1
    }

    open spec fn most_args(&self) -> Option<nat> {
        None
    }

    open spec fn accepts(
        &self,
        pre: ContextView,
        args: Seq<Frame>,
        now: Moment,
        post: ContextView,
        reply: Frame,
    ) -> bool {
        (Outcome { post, reply }) == del_outcome(pre, args, now)
    }

    fn execute_at(&self, ctx: &mut CommandContext, args: &[RespValue], now: Moment) -> (reply:
        RespValue) {
        if args.len() == 0 {
            return wrong_args_reply("DEL");
        }
        if !check_all_bulk(args, 0) {
            return err_reply("Expected bulk string");
        }
        let ghost pre = ctx@;
        let ghost keys = bulks(frames(args@), 0);
        let mut deleted: usize = 0;
        let mut i: usize = 0;
        proof {
            assert(keys.take(0) =~= Seq::<Seq<u8>>::empty());
            assert(delete_records(Seq::empty(), now) =~= Seq::<AofEntryView>::empty());
            assert(pre.aof is Some ==> pre.aof->0.write_all(
                Seq::<AofEntryView>::empty(),
                now.monotonic,
            ) == pre.aof->0);
        }
        while i < args.len()
            invariant
                i <= args@.len(),
                all_bulk(frames(args@), 0),
                keys == bulks(frames(args@), 0),
                deleted <= i,
                deleted == delete_all(pre.store, keys.take(i as int), now.monotonic).1.len(),
                ctx@ == (ContextView {
                    store: delete_all(pre.store, keys.take(i as int), now.monotonic).0,
                    aof: logged(
                        pre.aof,
                        delete_records(
                            delete_all(pre.store, keys.take(i as int), now.monotonic).1,
                            now,
                        ),
                        now,
                    ),
                    ..pre
                }),
            decreases args@.len() - i,
        {
            assert(frames(args@)[i as int] is BulkString);
            proof {
                assert(keys.take(i + 1).drop_last() =~= keys.take(i as int));
                assert(keys.take(i + 1).last() == keys[i as int]);
            }
            match &args[i] {
                RespValue::BulkString(key) => {
                    if ctx.store.delete_at(key.as_slice(), now.monotonic) {
                        let payload: Vec<Vec<u8>> = Vec::new();
                        proof {
                            assert(keys_view(payload@) =~= Seq::<Seq<u8>>::empty());
                            let gone = delete_all(
                                pre.store,
                                keys.take(i as int),
                                now.monotonic,
                            ).1;
                            let done = delete_records(gone, now);
                            let entry = record(AofOperation::Del, key@, Seq::empty(), now);
                            assert(delete_records(gone.push(key@), now) =~= done.push(entry));
                            assert(done.push(entry).drop_last() =~= done);
                            assert(seq![entry].drop_last() =~= Seq::<AofEntryView>::empty());
                            if pre.aof is Some {
                                let w = pre.aof->0.write_all(done, now.monotonic);
                                assert(w.write_all(seq![entry].drop_last(), now.monotonic) == w);
                            }
                        }
                        log_to_aof(
                            ctx,
                            AofOperation::Del,
                            copy_bytes(key.as_slice()),
                            payload,
                            now,
                        );
                        deleted = deleted + 1;
                    }
                },
                _ => {},
            }
            i += 1;
        }
        proof {
            assert(keys.take(i as int) =~= keys);
        }
        RespValue::integer(deleted as i64)
    }

    fn name(&self) -> (r: &'static str) {
        "DEL"
    }

    fn min_args(&self) -> (r: usize) {
        1
    }

    fn max_args(&self) -> (r: Option<usize>) {
        None
    }
}

/// The store `m` after `keys` are looked up in order at `now`, and how many
/// of them were present at their turn.
pub open spec fn count_present(m: StoreView, keys: Seq<Seq<u8>>, now: u64) -> (StoreView, nat)
    decreases keys.len(),
{
    if keys.len() == 0 {
        (m, 0)
    } else {
        let (before, count) = count_present(m, keys.drop_last(), now);
        (
            evict(before, keys.last(), now),
            if live(before, keys.last(), now) {
                count + 1
            } else {
                count
            },
        )
    }
}

/// `EXISTS key [key ...]`: answers how many of the keys are present.
pub struct ExistsCommand;

/// What `EXISTS` does.
pub open spec fn exists_outcome(pre: ContextView, args: Seq<Frame>, now: Moment) -> Outcome {
    if args.len() == 0 {
        unchanged(pre, wrong_args("EXISTS"@))
    } else if !all_bulk(args, 0) {
        unchanged(pre, not_bulk())
    } else {
        let (store, count) = count_present(pre.store, bulks(args, 0), now.monotonic);
        Outcome { post: pre.with_store(store), reply: Frame::Integer(count as i64) }
    }
}

impl Command for ExistsCommand {
    open spec fn label(&self) -> Seq<char> {
        "EXISTS"@
    }

    open spec fn least_args(&self) -> nat {
        1
    }

    open spec fn most_args(&self) -> Option<nat> {
        None
    }

    open spec fn accepts(
        &self,
        pre: ContextView,
        args: Seq<Frame>,
        now: Moment,
        post: ContextView,
        reply: Frame,
    ) -> bool {
        (Outcome { post, reply }) == exists_outcome(pre, args, now)
    }

    fn execute_at(&self, ctx: &mut CommandContext, args: &[RespValue], now: Moment) -> (reply:
        RespValue) {
        if args.len() == 0 {
            return wrong_args_reply("EXISTS");
        }
        if !check_all_bulk(args, 0) {
            return err_reply("Expected bulk string");
        }
        let ghost pre = ctx@;
        let ghost keys = bulks(frames(args@), 0);
        let mut count: usize = 0;
        let mut i: usize = 0;
        proof {
            assert(keys.take(0) =~= Seq::<Seq<u8>>::empty());
        }
        while i < args.len()
            invariant
                i <= args@.len(),
                all_bulk(frames(args@), 0),
                keys == bulks(frames(args@), 0),
                count <= i,
                count == count_present(pre.store, keys.take(i as int), now.monotonic).1,
                ctx@ == pre.with_store(
                    count_present(pre.store, keys.take(i as int), now.monotonic).0,
                ),
            decreases args@.len() - i,
        {
            assert(frames(args@)[i as int] is BulkString);
            proof {
                assert(keys.take(i + 1).drop_last() =~= keys.take(i as int));
                assert(keys.take(i + 1).last() == keys[i as int]);
            }
            match &args[i] {
                RespValue::BulkString(key) => {
                    if ctx.store.exists_at(key.as_slice(), now.monotonic) {
                        count = count + 1;
                    }
                },
                _ => {},
            }
            i += 1;
        }
        proof {
            assert(keys.take(i as int) =~= keys);
        }
        RespValue::integer(count as i64)
    }

    fn name(&self) -> (r: &'static str) {
        "EXISTS"
    }

    fn min_args(&self) -> (r: usize) {
        1
    }

    fn max_args(&self) -> (r: Option<usize>) {
        None
    }
}

} // verus!
