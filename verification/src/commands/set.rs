//! SADD, SMEMBERS and SCARD.

use vstd::prelude::*;
use crate::commands::all_bulk;
use crate::commands::bulks;
use crate::commands::check_all_bulk;
use crate::commands::context::CommandContext;
use crate::commands::context::ContextView;
use crate::commands::err_reply;
use crate::commands::extract_bulk_string;
use crate::commands::hash::bulk_frames;
use crate::commands::hash::lists_members;
use crate::commands::not_bulk;
use crate::commands::unchanged;
use crate::commands::wrong_args;
use crate::commands::wrong_args_reply;
use crate::commands::wrong_type;
use crate::commands::wrong_type_reply;
use crate::commands::Command;
use crate::commands::Outcome;
use crate::octets::copy_bytes;
use crate::protocol::types::frames;
use crate::protocol::types::Frame;
use crate::protocol::types::RespValue;
use crate::store::bytemap::ByteSet;
use crate::store::clock::Moment;
use crate::store::entry::EntryView;
use crate::store::memory::evict;
use crate::store::memory::live;
use crate::store::memory::StoreView;
use crate::store::value::Value;
use crate::store::value::ValueView;

verus! {

/// The store `m` with the set `members` as the value under `key`. `fresh`
/// says whether the key gets a fresh entry.
pub open spec fn with_members(m: StoreView, key: Seq<u8>, members: Set<Seq<u8>>, fresh: bool) -> StoreView {
    if fresh {
        m.insert(key, EntryView::fresh(key, ValueView::Members(members)))
    } else {
        m.insert(key, m[key].with_value(ValueView::Members(members)))
    }
}

/// `SADD key member [member ...]`: adds the members to the set under the
/// key; answers how many were new.
pub struct SAddCommand;

/// What `SADD` does.
pub open spec fn sadd_outcome(pre: ContextView, args: Seq<Frame>, now: Moment) -> Outcome {
    if args.len() < 2 {
        unchanged(pre, wrong_args("SADD"@))
    } else if !all_bulk(args, 0) {
        unchanged(pre, not_bulk())
    } else {
        let key = args[0]->BulkString_0;
        let items = bulks(args, 1);
        let is_live = live(pre.store, key, now.monotonic);
        if is_live && !(pre.store[key].value is Members) {
            unchanged(pre, wrong_type())
        } else {
            let before = if is_live {
                pre.store[key].value->Members_0
            } else {
                Set::empty()
            };
            let after = before.union(items.to_set());
            Outcome {
                post: pre.with_store(with_members(pre.store, key, after, !is_live)),
                reply: Frame::Integer((after.len() - before.len()) as i64),
            }
        }
    }
}

/// Adds the items of `args`, from position 1 on, to `set`; returns how many
/// were new.
fn add_items(set: &mut ByteSet, args: &[RespValue]) -> (added: usize)
    requires
        args@.len() >= 1,
        all_bulk(frames(args@), 0),
    ensures
        final(set).members() == old(set).members().union(bulks(frames(args@), 1).to_set()),
        added == final(set).members().len() - old(set).members().len(),
        added <= args@.len() - 1,
{
    let ghost items = bulks(frames(args@), 1);
    let ghost start = set.members();
    let _ = set.len();
    let mut added: usize = 0;
    let mut i: usize = 1;
    proof {
        assert(items.take(0).to_set() =~= Set::<Seq<u8>>::empty());
        assert(start.union(items.take(0).to_set()) =~= start);
    }
    while i < args.len()
        invariant
            1 <= i <= args@.len(),
            all_bulk(frames(args@), 0),
            items == bulks(frames(args@), 1),
            start.finite(),
            set.members().finite(),
            set.members() == start.union(items.take(i - 1).to_set()),
            added == set.members().len() - start.len(),
            added <= i - 1,
        decreases args@.len() - i,
    {
        let ghost before = set.members();
        assert(frames(args@)[i as int] is BulkString);
        match &args[i] {
            RespValue::BulkString(b) => {
                let item = copy_bytes(b.as_slice());
                proof {
                    assert(item@ == items[i - 1]);
                    assert(items.take(i as int) =~= items.take(i - 1).push(item@));
                    assert(items.take(i as int).to_set() =~= items.take(i - 1).to_set().insert(
                        item@,
                    )) by {
                        let longer = items.take(i as int);
                        let shorter = items.take(i - 1);
                        assert forall|x: Seq<u8>| longer.to_set().contains(x) <==> (
                        shorter.to_set().contains(x) || x == item@) by {
                            if longer.contains(x) {
                                let j = longer.index_of(x);
                                if j < shorter.len() {
                                    assert(shorter[j] == x);
                                }
                            }
                            if shorter.contains(x) {
                                let j = shorter.index_of(x);
                                assert(longer[j] == x);
                            }
                            if x == item@ {
                                assert(longer[i - 1] == x);
                            }
                        }
                    }
                }
                if set.insert(item) {
                    added = added + 1;
                }
                proof {
                    assert(set.members() =~= start.union(items.take(i as int).to_set()));
                }
            },
            _ => {},
        }
        i += 1;
    }
    proof {
        assert(items.take(i - 1) =~= items);
    }
    added
}

impl Command for SAddCommand {
    open spec fn label(&self) -> Seq<char> {
        "SADD"@
    }

    open spec fn least_args(&self) -> nat {
        2
    }

    open spec fn most_args(&self) -> Option<nat> {
        None
    }

    open spec fn accepts(
        &self,
        pre: ContextView,
        args: Seq<Frame>,
        now: Moment,
        post: ContextView,
        reply: Frame,
    ) -> bool {
        (Outcome { post, reply }) == sadd_outcome(pre, args, now)
    }

    fn execute_at(&self, ctx: &mut CommandContext, args: &[RespValue], now: Moment) -> (reply:
        RespValue) {
        if args.len() < 2 {
            return wrong_args_reply("SADD");
        }
        if !check_all_bulk(args, 0) {
            return err_reply("Expected bulk string");
        }
        let ghost pre = ctx@;
        assert(frames(args@)[0] is BulkString);
        let key = match &args[0] {
            RespValue::BulkString(b) => copy_bytes(b.as_slice()),
            _ => Vec::new(),
        };
        let added: usize = match ctx.store.get_mut_at(key.as_slice(), now.monotonic) {
            Some(value) => match value.as_set_mut() {
                Some(set) => add_items(set, args),
                None => {
                    proof {
                        let e = pre.store[key@];
                        assert(e.with_value(e.value) == e);
                        assert(pre.store.insert(key@, e) =~= pre.store);
                    }
                    return wrong_type_reply();
                },
            },
            None => {
                let mut fresh = ByteSet::new();
                let added = add_items(&mut fresh, args);
                let ghost made = fresh.members();
                ctx.store.set(copy_bytes(key.as_slice()), Value::Members(fresh));
                proof {
                    assert(ctx.store@ =~= with_members(pre.store, key@, made, true));
                }
                added
            },
        };
        RespValue::integer(added as i64)
    }

    fn name(&self) -> (r: &'static str) {
        "SADD"
    }

    fn min_args(&self) -> (r: usize) {
        2
    }

    fn max_args(&self) -> (r: Option<usize>) {
        None
    }
}

/// `SMEMBERS key`: the members of the set under the key.
pub struct SMembersCommand;

impl Command for SMembersCommand {
    open spec fn label(&self) -> Seq<char> {
        "SMEMBERS"@
    }

    open spec fn least_args(&self) -> nat {
        1
    }

    open spec fn most_args(&self) -> Option<nat> {
        Some(1)
    }

    open spec fn accepts(
        &self,
        pre: ContextView,
        args: Seq<Frame>,
        now: Moment,
        post: ContextView,
        reply: Frame,
    ) -> bool {
        if args.len() == 0 {
            (Outcome { post, reply }) == unchanged(pre, wrong_args("SMEMBERS"@))
        } else if !(args[0] is BulkString) {
            (Outcome { post, reply }) == unchanged(pre, not_bulk())
        } else {
            let key = args[0]->BulkString_0;
            &&& post == pre.with_store(evict(pre.store, key, now.monotonic))
            &&& if live(pre.store, key, now.monotonic) {
                match pre.store[key].value {
                    ValueView::Members(s) => lists_members(reply, s),
                    _ => reply == wrong_type(),
                }
            } else {
                reply == Frame::Array(Seq::empty())
            }
        }
    }

    fn execute_at(&self, ctx: &mut CommandContext, args: &[RespValue], now: Moment) -> (reply:
        RespValue) {
        if args.len() == 0 {
            return wrong_args_reply("SMEMBERS");
        }
        let key = match extract_bulk_string(&args[0]) {
            Ok(k) => k,
            Err(e) => {
                return err_reply(e);
            },
        };
        match ctx.store.get_at(key.as_slice(), now.monotonic) {
            Some(value) => match value.as_set() {
                Some(set) => {
                    let n = set.len();
                    let ghost order = set.order();
                    let mut result: Vec<RespValue> = Vec::new();
                    let mut i: usize = 0;
                    while i < n
                        invariant
                            n == set.order().len(),
                            order == set.order(),
                            i <= n,
                            frames(result@) == bulk_frames(order.take(i as int)),
                        decreases n - i,
                    {
                        let ghost before = frames(result@);
                        let item = RespValue::bulk_string(copy_bytes(set.item_at(i).as_slice()));
                        result.push(item);
                        proof {
                            assert(frames(result@) =~= before.push(item@));
                            assert(frames(result@) =~= bulk_frames(order.take(i + 1)));
                        }
                        i += 1;
                    }
                    proof {
                        assert(order.take(i as int) =~= order);
                    }
                    RespValue::array(result)
                },
                None => wrong_type_reply(),
            },
            None => {
                let r = RespValue::array(Vec::new());
                assert(frames(Seq::<RespValue>::empty()) =~= Seq::<Frame>::empty());
                r
            },
        }
    }

    fn name(&self) -> (r: &'static str) {
        "SMEMBERS"
    }

    fn min_args(&self) -> (r: usize) {
        1
    }

    fn max_args(&self) -> (r: Option<usize>) {
        Some(1)
    }
}

/// `SCARD key`: the number of members of the set under the key.
pub struct SCardCommand;

/// What `SCARD` does.
pub open spec fn scard_outcome(pre: ContextView, args: Seq<Frame>, now: Moment) -> Outcome {
    if args.len() == 0 {
        unchanged(pre, wrong_args("SCARD"@))
    } else if !(args[0] is BulkString) {
        unchanged(pre, not_bulk())
    } else {
        let key = args[0]->BulkString_0;
        Outcome {
            post: pre.with_store(evict(pre.store, key, now.monotonic)),
            reply: if live(pre.store, key, now.monotonic) {
                match pre.store[key].value {
                    ValueView::Members(s) => Frame::Integer(s.len() as i64),
                    _ => wrong_type(),
                }
            } else {
                Frame::Integer(0)
            },
        }
    }
}

impl Command for SCardCommand {
    open spec fn label(&self) -> Seq<char> {
        "SCARD"@
    }

    open spec fn least_args(&self) -> nat {
        1
    }

    open spec fn most_args(&self) -> Option<nat> {
        Some(1)
    }

    open spec fn accepts(
        &self,
        pre: ContextView,
        args: Seq<Frame>,
        now: Moment,
        post: ContextView,
        reply: Frame,
    ) -> bool {
        (Outcome { post, reply }) == scard_outcome(pre, args, now)
    }

    fn execute_at(&self, ctx: &mut CommandContext, args: &[RespValue], now: Moment) -> (reply:
        RespValue) {
        if args.len() == 0 {
            return wrong_args_reply("SCARD");
        }
        let key = match extract_bulk_string(&args[0]) {
            Ok(k) => k,
            Err(e) => {
                return err_reply(e);
            },
        };
        match ctx.store.get_at(key.as_slice(), now.monotonic) {
            Some(value) => match value.as_set() {
                Some(set) => RespValue::integer(set.len() as i64),
                None => wrong_type_reply(),
            },
            None => RespValue::integer(0),
        }
    }

    fn name(&self) -> (r: &'static str) {
        "SCARD"
    }

    fn min_args(&self) -> (r: usize) {
        1
    }

    fn max_args(&self) -> (r: Option<usize>) {
        Some(1)
    }
}

} // verus!
