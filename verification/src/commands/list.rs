//! LPUSH, RPUSH, LRANGE and LLEN.

use vstd::prelude::*;
use std::collections::VecDeque;
use crate::commands::all_bulk;
use crate::commands::bulks;
use crate::commands::check_all_bulk;
use crate::commands::context::CommandContext;
use crate::commands::context::ContextView;
use crate::commands::err;
use crate::commands::err_reply;
use crate::commands::extract_bulk_string;
use crate::commands::extract_integer;
use crate::commands::hash::bulk_frames;
use crate::commands::integer_arg;
use crate::commands::not_bulk;
use crate::commands::unchanged;
use crate::commands::wrong_args;
use crate::commands::wrong_args_reply;
use crate::commands::wrong_type;
use crate::commands::wrong_type_reply;
use crate::commands::Command;
use crate::commands::Outcome;
use crate::octets::copy_bytes;
use crate::protocol::types::frames;
use crate::protocol::types::Frame;
use crate::protocol::types::RespValue;
use crate::store::clock::Moment;
use crate::store::entry::EntryView;
use crate::store::memory::evict;
use crate::store::memory::live;
use crate::store::memory::StoreView;
use crate::store::value::list_view;
use crate::store::value::Value;
use crate::store::value::ValueView;

verus! {

/// The list `list` after `items` are pushed: to the front, one by one, so
/// that the last item pushed comes first; or to the back, in order.
pub open spec fn pushed(list: Seq<Seq<u8>>, items: Seq<Seq<u8>>, front: bool) -> Seq<Seq<u8>> {
    if front {
        items.reverse() + list
    } else {
        list + items
    }
}

/// The store `m` with the list `list` as the value under `key`. `fresh`
/// says whether the key gets a fresh entry.
pub open spec fn with_list(m: StoreView, key: Seq<u8>, list: Seq<Seq<u8>>, fresh: bool) -> StoreView {
    if fresh {
        m.insert(key, EntryView::fresh(key, ValueView::List(list)))
    } else {
        m.insert(key, m[key].with_value(ValueView::List(list)))
    }
}

/// What `LPUSH` (`front`) and `RPUSH` do; `name` is the command's name.
pub open spec fn push_outcome(
    pre: ContextView,
    args: Seq<Frame>,
    now: Moment,
    front: bool,
    name: Seq<char>,
) -> Outcome {
    if args.len() < 2 {
        unchanged(pre, wrong_args(name))
    } else if !all_bulk(args, 0) {
        unchanged(pre, not_bulk())
    } else {
        let key = args[0]->BulkString_0;
        let items = bulks(args, 1);
        let is_live = live(pre.store, key, now.monotonic);
        if is_live && !(pre.store[key].value is List) {
            unchanged(pre, wrong_type())
        } else {
            let before = if is_live {
                pre.store[key].value->List_0
            } else {
                Seq::empty()
            };
            let after = pushed(before, items, front);
            Outcome {
                post: pre.with_store(with_list(pre.store, key, after, !is_live)),
                reply: Frame::Integer(after.len() as i64),
            }
        }
    }
}

/// Pushes the items of `args`, from position 1 on, to `list`; returns the
/// list's length afterwards.
fn push_items(list: &mut VecDeque<Vec<u8>>, args: &[RespValue], front: bool) -> (len: usize)
    requires
        args@.len() >= 1,
        all_bulk(frames(args@), 0),
    ensures
        list_view(*final(list)) == pushed(list_view(*old(list)), bulks(frames(args@), 1), front),
        len == list_view(*final(list)).len(),
{
    let ghost items = bulks(frames(args@), 1);
    let ghost start = list_view(*list);
    let mut i: usize = 1;
    proof {
        assert(items.take(0) =~= Seq::<Seq<u8>>::empty());
        assert(pushed(start, items.take(0), front) =~= start);
    }
    while i < args.len()
        invariant
            1 <= i <= args@.len(),
            all_bulk(frames(args@), 0),
            items == bulks(frames(args@), 1),
            list_view(*list) == pushed(start, items.take(i - 1), front),
        decreases args@.len() - i,
    {
        let ghost before = list_view(*list);
        assert(frames(args@)[i as int] is BulkString);
        match &args[i] {
            RespValue::BulkString(b) => {
                let item = copy_bytes(b.as_slice());
                proof {
                    assert(item@ == items[i - 1]);
                    assert(items.take(i as int) =~= items.take(i - 1).push(item@));
                }
                if front {
                    list.push_front(item);
                    proof {
                        assert(list_view(*list) =~= seq![item@] + before);
                        assert(items.take(i as int).reverse() =~= seq![item@] + items.take(
                            i - 1,
                        ).reverse());
                        assert(list_view(*list) =~= pushed(start, items.take(i as int), front));
                    }
                } else {
                    list.push_back(item);
                    proof {
                        assert(list_view(*list) =~= before.push(item@));
                        assert(list_view(*list) =~= pushed(start, items.take(i as int), front));
                    }
                }
            },
            _ => {},
        }
        i += 1;
    }
    proof {
        assert(items.take(i - 1) =~= items);
    }
    list.len()
}

fn run_push(
    ctx: &mut CommandContext,
    args: &[RespValue],
    now: Moment,
    front: bool,
    name: &str,
) -> (reply: RespValue)
    ensures
        (Outcome { post: final(ctx)@, reply: reply@ }) == push_outcome(
            old(ctx)@,
            frames(args@),
            now,
            front,
            name@,
        ),
{
    if args.len() < 2 {
        return wrong_args_reply(name);
    }
    if !check_all_bulk(args, 0) {
        return err_reply("Expected bulk string");
    }
    let ghost pre = ctx@;
    assert(frames(args@)[0] is BulkString);
    let key = match &args[0] {
        RespValue::BulkString(b) => copy_bytes(b.as_slice()),
        _ => Vec::new(),
    };
    let len: usize = match ctx.store.get_mut_at(key.as_slice(), now.monotonic) {
        Some(value) => match value.as_list_mut() {
            Some(list) => push_items(list, args, front),
            None => {
                proof {
                    let e = pre.store[key@];
                    assert(e.with_value(e.value) == e);
                    assert(pre.store.insert(key@, e) =~= pre.store);
                }
                return wrong_type_reply();
            },
        },
        None => {
            let mut fresh: VecDeque<Vec<u8>> = VecDeque::new();
            assert(list_view(fresh) =~= Seq::<Seq<u8>>::empty());
            let len = push_items(&mut fresh, args, front);
            let ghost made = list_view(fresh);
            ctx.store.set(copy_bytes(key.as_slice()), Value::List(fresh));
            proof {
                assert(ctx.store@ =~= with_list(pre.store, key@, made, true));
            }
            len
        },
    };
    RespValue::integer(len as i64)
}

/// `LPUSH key value [value ...]`: pushes the values to the front of the
/// list under the key, one by one; answers the list's length.
pub struct LPushCommand;

impl Command for LPushCommand {
    open spec fn label(&self) -> Seq<char> {
        "LPUSH"@
    }

    open spec fn least_args(&self) -> nat {
        2
    }

    open spec fn most_args(&self) -> Option<nat> {
        None
    }

    open spec fn accepts(
        &self,
        pre: ContextView,
        args: Seq<Frame>,
        now: Moment,
        post: ContextView,
        reply: Frame,
    ) -> bool {
        (Outcome { post, reply }) == push_outcome(pre, args, now, true, "LPUSH"@)
    }

    fn execute_at(&self, ctx: &mut CommandContext, args: &[RespValue], now: Moment) -> (reply:
        RespValue) {
        run_push(ctx, args, now, true, "LPUSH")
    }

    fn name(&self) -> (r: &'static str) {
        "LPUSH"
    }

    fn min_args(&self) -> (r: usize) {
        2
    }

    fn max_args(&self) -> (r: Option<usize>) {
        None
    }
}

/// `RPUSH key value [value ...]`: pushes the values to the back of the list
/// under the key; answers the list's length.
pub struct RPushCommand;

impl Command for RPushCommand {
    open spec fn label(&self) -> Seq<char> {
        "RPUSH"@
    }

    open spec fn least_args(&self) -> nat {
        2
    }

    open spec fn most_args(&self) -> Option<nat> {
        None
    }

    open spec fn accepts(
        &self,
        pre: ContextView,
        args: Seq<Frame>,
        now: Moment,
        post: ContextView,
        reply: Frame,
    ) -> bool {
        (Outcome { post, reply }) == push_outcome(pre, args, now, false, "RPUSH"@)
    }

    fn execute_at(&self, ctx: &mut CommandContext, args: &[RespValue], now: Moment) -> (reply:
        RespValue) {
        run_push(ctx, args, now, false, "RPUSH")
    }

    fn name(&self) -> (r: &'static str) {
        "RPUSH"
    }

    fn min_args(&self) -> (r: usize) {
        2
    }

    fn max_args(&self) -> (r: Option<usize>) {
        None
    }
}

/// The first position of the range `start..=stop` of a list of length
/// `len`: a negative `start` counts from the end, and the position is
/// clamped to the list.
pub open spec fn range_first(len: int, start: int) -> int {
    if start < 0 {
        if len + start < 0 {
            0
        } else {
            len + start
        }
    } else if start > len {
        len
    } else {
        start
    }
}

/// The last position of the range `start..=stop` of a list of length `len`:
/// a negative `stop` counts from the end, and the position is clamped to
/// the list; -1 where the range ends before the list begins.
pub open spec fn range_last(len: int, stop: int) -> int {
    if stop < 0 {
        if len + stop < -1 {
            -1
        } else {
            len + stop
        }
    } else if stop > len - 1 {
        len - 1
    } else {
        stop
    }
}

/// The items of `list` in the range `start..=stop`.
pub open spec fn range_of(list: Seq<Seq<u8>>, start: int, stop: int) -> Seq<Seq<u8>> {
    let first = range_first(list.len() as int, start);
    let last = range_last(list.len() as int, stop);
    if first <= last && first < list.len() {
        list.subrange(first, last + 1)
    } else {
        Seq::empty()
    }
}

/// `LRANGE key start stop`: the items of the list under the key from
/// position `start` to position `stop`, both included.
pub struct LRangeCommand;

/// What `LRANGE` does.
pub open spec fn lrange_outcome(pre: ContextView, args: Seq<Frame>, now: Moment) -> Outcome {
    if args.len() < 3 {
        unchanged(pre, wrong_args("LRANGE"@))
    } else if !(args[0] is BulkString) {
        unchanged(pre, not_bulk())
    } else {
        match integer_arg(args[1]) {
            Err(e) => unchanged(pre, err(e)),
            Ok(start) => match integer_arg(args[2]) {
                Err(e) => unchanged(pre, err(e)),
                Ok(stop) => {
                    let key = args[0]->BulkString_0;
                    Outcome {
                        post: pre.with_store(evict(pre.store, key, now.monotonic)),
                        reply: if live(pre.store, key, now.monotonic) {
                            match pre.store[key].value {
                                ValueView::List(list) => Frame::Array(
                                    bulk_frames(range_of(list, start as int, stop as int)),
                                ),
                                _ => wrong_type(),
                            }
                        } else {
                            Frame::Array(Seq::empty())
                        },
                    }
                },
            },
        }
    }
}

impl Command for LRangeCommand {
    open spec fn label(&self) -> Seq<char> {
        "LRANGE"@
    }

    open spec fn least_args(&self) -> nat {
        3
    }

    open spec fn most_args(&self) -> Option<nat> {
        Some(3)
    }

    open spec fn accepts(
        &self,
        pre: ContextView,
        args: Seq<Frame>,
        now: Moment,
        post: ContextView,
        reply: Frame,
    ) -> bool {
        (Outcome { post, reply }) == lrange_outcome(pre, args, now)
    }

    fn execute_at(&self, ctx: &mut CommandContext, args: &[RespValue], now: Moment) -> (reply:
        RespValue) {
        if args.len() < 3 {
            return wrong_args_reply("LRANGE");
        }
        let key = match extract_bulk_string(&args[0]) {
            Ok(k) => k,
            Err(e) => {
                return err_reply(e);
            },
        };
        let start = match extract_integer(&args[1]) {
            Ok(i) => i,
            Err(e) => {
                return err_reply(e);
            },
        };
        let stop = match extract_integer(&args[2]) {
            Ok(i) => i,
            Err(e) => {
                return err_reply(e);
            },
        };
        match ctx.store.get_at(key.as_slice(), now.monotonic) {
            Some(value) => match value.as_list() {
                Some(list) => {
                    let ghost all = list_view(*list);
                    let len: i128 = list.len() as i128;
                    let first: i128 = if start < 0 {
                        if len + (start as i128) < 0 {
                            0
                        } else {
                            len + (start as i128)
                        }
                    } else if (start as i128) > len {
                        len
                    } else {
                        start as i128
                    };
                    let last: i128 = if stop < 0 {
                        if len + (stop as i128) < -1 {
                            -1
                        } else {
                            len + (stop as i128)
                        }
                    } else if (stop as i128) > len - 1 {
                        len - 1
                    } else {
                        stop as i128
                    };
                    let mut result: Vec<RespValue> = Vec::new();
                    if first <= last && first < len {
                        let from: usize = first as usize;
                        let to: usize = last as usize;
                        let mut i: usize = from;
                        assert(all.subrange(from as int, from as int) =~= Seq::<Seq<u8>>::empty());
                        assert(frames(result@) =~= bulk_frames(Seq::empty()));
                        while i <= to
                            invariant
                                from <= i <= to + 1,
                                to < list@.len(),
                                list@.len() <= usize::MAX,
                                all == list_view(*list),
                                frames(result@) == bulk_frames(all.subrange(from as int, i as int)),
                            decreases to + 1 - i,
                        {
                            let ghost before = frames(result@);
                            let item = RespValue::bulk_string(copy_bytes(list[i].as_slice()));
                            result.push(item);
                            proof {
                                assert(frames(result@) =~= before.push(item@));
                                assert(all.subrange(from as int, i + 1) =~= all.subrange(
                                    from as int,
                                    i as int,
                                ).push(all[i as int]));
                                assert(frames(result@) =~= bulk_frames(
                                    all.subrange(from as int, i + 1),
                                ));
                            }
                            i += 1;
                        }
                    } else {
                        assert(frames(result@) =~= bulk_frames(Seq::empty()));
                    }
                    RespValue::array(result)
                },
                None => wrong_type_reply(),
            },
            None => {
                let r = RespValue::array(Vec::new());
                assert(frames(Seq::<RespValue>::empty()) =~= Seq::<Frame>::empty());
                r
            },
        }
    }

    fn name(&self) -> (r: &'static str) {
        "LRANGE"
    }

    fn min_args(&self) -> (r: usize) {
        3
    }

    fn max_args(&self) -> (r: Option<usize>) {
        Some(3)
    }
}

/// `LLEN key`: the length of the list under the key.
pub struct LLenCommand;

/// What `LLEN` does.
pub open spec fn llen_outcome(pre: ContextView, args: Seq<Frame>, now: Moment) -> Outcome {
    if args.len() == 0 {
        unchanged(pre, wrong_args("LLEN"@))
    } else if !(args[0] is BulkString) {
        unchanged(pre, not_bulk())
    } else {
        let key = args[0]->BulkString_0;
        Outcome {
            post: pre.with_store(evict(pre.store, key, now.monotonic)),
            reply: if live(pre.store, key, now.monotonic) {
                match pre.store[key].value {
                    ValueView::List(list) => Frame::Integer(list.len() as i64),
                    _ => wrong_type(),
                }
            } else {
                Frame::Integer(0)
            },
        }
    }
}

impl Command for LLenCommand {
    open spec fn label(&self) -> Seq<char> {
        "LLEN"@
    }

    open spec fn least_args(&self) -> nat {
        1
    }

    open spec fn most_args(&self) -> Option<nat> {
        Some(1)
    }

    open spec fn accepts(
        &self,
        pre: ContextView,
        args: Seq<Frame>,
        now: Moment,
        post: ContextView,
        reply: Frame,
    ) -> bool {
        (Outcome { post, reply }) == llen_outcome(pre, args, now)
    }

    fn execute_at(&self, ctx: &mut CommandContext, args: &[RespValue], now: Moment) -> (reply:
        RespValue) {
        if args.len() == 0 {
            return wrong_args_reply("LLEN");
        }
        let key = match extract_bulk_string(&args[0]) {
            Ok(k) => k,
            Err(e) => {
                return err_reply(e);
            },
        };
        match ctx.store.get_at(key.as_slice(), now.monotonic) {
            Some(value) => match value.as_list() {
                Some(list) => RespValue::integer(list.len() as i64),
                None => wrong_type_reply(),
            },
            None => RespValue::integer(0),
        }
    }

    fn name(&self) -> (r: &'static str) {
        "LLEN"
    }

    fn min_args(&self) -> (r: usize) {
        1
    }

    fn max_args(&self) -> (r: Option<usize>) {
        Some(1)
    }
}

} // verus!
