//! INCR, INCRBY, DECR and DECRBY.

use vstd::prelude::*;
use crate::aof::entry::AofOperation;
use crate::commands::context::CommandContext;
use crate::commands::context::ContextView;
use crate::commands::err;
use crate::commands::err_reply;
use crate::commands::extract_bulk_string;
use crate::commands::extract_integer;
use crate::commands::integer_arg;
use crate::commands::log_to_aof;
use crate::commands::logged;
use crate::commands::not_bulk;
use crate::commands::record;
use crate::commands::unchanged;
use crate::commands::wrong_args;
use crate::commands::wrong_args_reply;
use crate::commands::wrong_type;
use crate::commands::wrong_type_reply;
use crate::commands::Command;
use crate::commands::Outcome;
use crate::octets::copy_bytes;
use crate::protocol::decimal::decimal;
use crate::protocol::decimal::format_i64;
use crate::protocol::decimal::parse_decimal;
use crate::protocol::decimal::parse_i64;
use crate::protocol::types::Frame;
use crate::protocol::types::RespValue;
use crate::store::clock::Moment;
use crate::store::entry::EntryView;
use crate::store::memory::evict;
use crate::store::memory::keys_view;
use crate::store::memory::live;
use crate::store::value::Value;
use crate::store::value::ValueView;

verus! {

/// The reply for a counter that would leave the range of an `i64`.
pub open spec fn overflow(up: bool) -> Frame {
    if up {
        Frame::Error("ERR increment would overflow"@)
    } else {
        Frame::Error("ERR decrement would overflow"@)
    }
}

/// The reply for a value that is no number.
pub open spec fn not_a_number() -> Frame {
    err("value is not an integer or out of range"@)
}

/// The context after the counter at `key` is set to `value`, and the reply.
/// `fresh` says whether the key gets a fresh entry; `log` whether the new
/// value is logged.
pub open spec fn counted(
    pre: ContextView,
    key: Seq<u8>,
    value: i64,
    fresh: bool,
    log: bool,
    now: Moment,
) -> Outcome {
    Outcome {
        post: ContextView {
            store: if fresh {
                pre.store.insert(key, EntryView::fresh(key, ValueView::Integer(value)))
            } else {
                pre.store.insert(key, pre.store[key].with_value(ValueView::Integer(value)))
            },
            aof: if log {
                logged(
                    pre.aof,
                    seq![record(AofOperation::SetKey, key, seq![decimal(value as int)], now)],
                    now,
                )
            } else {
                pre.aof
            },
            ..pre
        },
        reply: Frame::Integer(value),
    }
}

/// What a counter command does to the key `key`: `change` is added to the
/// number under the key, which counts as 0 where the key is absent. `up`
/// tells an increment from a decrement; `log` says whether the new value is
/// logged.
pub open spec fn counter_outcome(
    pre: ContextView,
    key: Seq<u8>,
    change: int,
    up: bool,
    log: bool,
    now: Moment,
) -> Outcome {
    if live(pre.store, key, now.monotonic) {
        let base = match pre.store[key].value {
            ValueView::Integer(i) => Ok::<int, Frame>(i as int),
            ValueView::String(b) => match parse_decimal(b) {
                Some(i) => Ok::<int, Frame>(i as int),
                None => Err::<int, Frame>(not_a_number()),
            },
            _ => Err::<int, Frame>(wrong_type()),
        };
        match base {
            Err(reply) => unchanged(pre, reply),
            Ok(i) => if i64::MIN <= i + change <= i64::MAX {
                counted(pre, key, (i + change) as i64, false, log, now)
            } else {
                unchanged(pre, overflow(up))
            },
        }
    } else if i64::MIN <= change <= i64::MAX {
        counted(pre, key, change as i64, true, log, now)
    } else {
        Outcome {
            post: pre.with_store(evict(pre.store, key, now.monotonic)),
            reply: overflow(up),
        }
    }
}

/// The number that a counter command reads under `key` at `now`: 0 where
/// the key is absent.
pub open spec fn counter_value(pre: ContextView, key: Seq<u8>, now: Moment) -> Option<int> {
    if live(pre.store, key, now.monotonic) {
        match pre.store[key].value {
            ValueView::Integer(i) => Some(i as int),
            ValueView::String(b) => match parse_decimal(b) {
                Some(i) => Some(i as int),
                None => None,
            },
            _ => None,
        }
    } else {
        Some(0int)
    }
}

/// No update is lost: two `INCR` of one key, run one after the other, leave
/// the number that was there plus two, and the second answers with it. This
/// holds where the key holds a number, or nothing, that can take two more,
/// and does not expire between the two commands.
pub proof fn lemma_incr_twice(pre: ContextView, key: Seq<u8>, first: Moment, second: Moment)
    requires
        counter_value(pre, key, first) matches Some(n) && n + 2 <= i64::MAX,
        live(pre.store, key, first.monotonic) ==> !pre.store[key].is_expired(second.monotonic),
    ensures
        ({
            let args = seq![Frame::BulkString(key)];
            let once = incr_outcome(pre, args, first);
            let twice = incr_outcome(once.post, args, second);
            let n = counter_value(pre, key, first)->0;
            &&& once.reply == Frame::Integer((n + 1) as i64)
            &&& twice.reply == Frame::Integer((n + 2) as i64)
            &&& twice.post.store.contains_key(key)
            &&& twice.post.store[key].value == ValueView::Integer((n + 2) as i64)
        }),
{
}

fn overflow_reply(up: bool) -> (r: RespValue)
    ensures
        r@ == overflow(up),
{
    if up {
        RespValue::error("ERR increment would overflow")
    } else {
        RespValue::error("ERR decrement would overflow")
    }
}

fn shift(base: i64, amount: i64, up: bool) -> (r: Option<i64>)
    ensures
        match r {
            Some(v) => v == base + (if up {
                amount as int
            } else {
                -(amount as int)
            }),
            None => !(i64::MIN <= base + (if up {
                amount as int
            } else {
                -(amount as int)
            }) <= i64::MAX),
        },
{
    if up {
        base.checked_add(amount)
    } else {
        base.checked_sub(amount)
    }
}

/// Adds `amount` to the counter at `key`, or takes it away.
fn run_counter(
    ctx: &mut CommandContext,
    key: &[u8],
    amount: i64,
    up: bool,
    log: bool,
    now: Moment,
) -> (reply: RespValue)
    ensures
        (Outcome { post: final(ctx)@, reply: reply@ }) == counter_outcome(
            old(ctx)@,
            key@,
            if up {
                amount as int
            } else {
                -(amount as int)
            },
            up,
            log,
            now,
        ),
{
    let ghost pre = ctx@;
    proof {
        if pre.store.contains_key(key@) {
            let e = pre.store[key@];
            assert(e.with_value(e.value) == e);
            assert(pre.store.insert(key@, e) =~= pre.store);
        }
    }
    let new_value: i64 = match ctx.store.get_mut_at(key, now.monotonic) {
        Some(value) => {
            let base = match value {
                Value::Integer(i) => *i,
                Value::String(bytes) => match parse_i64(bytes.as_slice()) {
                    Some(i) => i,
                    None => {
                        return err_reply("value is not an integer or out of range");
                    },
                },
                _ => {
                    return wrong_type_reply();
                },
            };
            match shift(base, amount, up) {
                Some(v) => {
                    *value = Value::Integer(v);
                    v
                },
                None => {
                    return overflow_reply(up);
                },
            }
        },
        None => {
            match shift(0, amount, up) {
                Some(v) => {
                    ctx.store.set(copy_bytes(key), Value::Integer(v));
                    proof {
                        assert(ctx.store@ =~= pre.store.insert(
                            key@,
                            EntryView::fresh(key@, ValueView::Integer(v)),
                        ));
                    }
                    v
                },
                None => {
                    return overflow_reply(up);
                },
            }
        },
    };
    if log {
        let mut payload: Vec<Vec<u8>> = Vec::new();
        payload.push(format_i64(new_value));
        assert(keys_view(payload@) =~= seq![decimal(new_value as int)]);
        log_to_aof(ctx, AofOperation::SetKey, copy_bytes(key), payload, now);
    }
    RespValue::integer(new_value)
}

/// `INCR key`: adds one to the number under the key.
pub struct IncrCommand;

/// What `INCR` does.
pub open spec fn incr_outcome(pre: ContextView, args: Seq<Frame>, now: Moment) -> Outcome {
    if args.len() == 0 {
        unchanged(pre, wrong_args("INCR"@))
    } else if !(args[0] is BulkString) {
        unchanged(pre, not_bulk())
    } else {
        counter_outcome(pre, args[0]->BulkString_0, 1, true, true, now)
    }
}

impl Command for IncrCommand {
    open spec fn label(&self) -> Seq<char> {
        "INCR"@
    }

    open spec fn least_args(&self) -> nat {
        1
    }

    open spec fn most_args(&self) -> Option<nat> {
        Some(1)
    }

    open spec fn accepts(
        &self,
        pre: ContextView,
        args: Seq<Frame>,
        now: Moment,
        post: ContextView,
        reply: Frame,
    ) -> bool {
        (Outcome { post, reply }) == incr_outcome(pre, args, now)
    }

    fn execute_at(&self, ctx: &mut CommandContext, args: &[RespValue], now: Moment) -> (reply:
        RespValue) {
        if args.len() == 0 {
            return wrong_args_reply("INCR");
        }
        let key = match extract_bulk_string(&args[0]) {
            Ok(k) => k,
            Err(e) => {
                return err_reply(e);
            },
        };
        run_counter(ctx, key.as_slice(), 1, true, true, now)
    }

    fn name(&self) -> (r: &'static str) {
        "INCR"
    }

    fn min_args(&self) -> (r: usize) {
        1
    }

    fn max_args(&self) -> (r: Option<usize>) {
        Some(1)
    }
}

/// `INCRBY key increment`: adds the increment to the number under the key.
pub struct IncrByCommand;

/// What `INCRBY` does.
pub open spec fn incrby_outcome(pre: ContextView, args: Seq<Frame>, now: Moment) -> Outcome {
    if args.len() < 2 {
        unchanged(pre, wrong_args("INCRBY"@))
    } else if !(args[0] is BulkString) {
        unchanged(pre, not_bulk())
    } else {
        match integer_arg(args[1]) {
            Err(e) => unchanged(pre, err(e)),
            Ok(n) => counter_outcome(pre, args[0]->BulkString_0, n as int, true, false, now),
        }
    }
}

impl Command for IncrByCommand {
    open spec fn label(&self) -> Seq<char> {
        "INCRBY"@
    }

    open spec fn least_args(&self) -> nat {
        2
    }

    open spec fn most_args(&self) -> Option<nat> {
        Some(2)
    }

    open spec fn accepts(
        &self,
        pre: ContextView,
        args: Seq<Frame>,
        now: Moment,
        post: ContextView,
        reply: Frame,
    ) -> bool {
        (Outcome { post, reply }) == incrby_outcome(pre, args, now)
    }

    fn execute_at(&self, ctx: &mut CommandContext, args: &[RespValue], now: Moment) -> (reply:
        RespValue) {
        if args.len() < 2 {
            return wrong_args_reply("INCRBY");
        }
        let key = match extract_bulk_string(&args[0]) {
            Ok(k) => k,
            Err(e) => {
                return err_reply(e);
            },
        };
        let increment = match extract_integer(&args[1]) {
            Ok(i) => i,
            Err(e) => {
                return err_reply(e);
            },
        };
        run_counter(ctx, key.as_slice(), increment, true, false, now)
    }

    fn name(&self) -> (r: &'static str) {
        "INCRBY"
    }

    fn min_args(&self) -> (r: usize) {
        2
    }

    fn max_args(&self) -> (r: Option<usize>) {
        Some(2)
    }
}

/// `DECR key`: takes one from the number under the key.
pub struct DecrCommand;

/// What `DECR` does.
pub open spec fn decr_outcome(pre: ContextView, args: Seq<Frame>, now: Moment) -> Outcome {
    if args.len() == 0 {
        unchanged(pre, wrong_args("DECR"@))
    } else if !(args[0] is BulkString) {
        unchanged(pre, not_bulk())
    } else {
        counter_outcome(pre, args[0]->BulkString_0, -1, false, false, now)
    }
}

impl Command for DecrCommand {
    open spec fn label(&self) -> Seq<char> {
        "DECR"@
    }

    open spec fn least_args(&self) -> nat {
        1
    }

    open spec fn most_args(&self) -> Option<nat> {
        Some(1)
    }

    open spec fn accepts(
        &self,
        pre: ContextView,
        args: Seq<Frame>,
        now: Moment,
        post: ContextView,
        reply: Frame,
    ) -> bool {
        (Outcome { post, reply }) == decr_outcome(pre, args, now)
    }

    fn execute_at(&self, ctx: &mut CommandContext, args: &[RespValue], now: Moment) -> (reply:
        RespValue) {
        if args.len() == 0 {
            return wrong_args_reply("DECR");
        }
        let key = match extract_bulk_string(&args[0]) {
            Ok(k) => k,
            Err(e) => {
                return err_reply(e);
            },
        };
        run_counter(ctx, key.as_slice(), 1, false, false, now)
    }

    fn name(&self) -> (r: &'static str) {
        "DECR"
    }

    fn min_args(&self) -> (r: usize) {
        1
    }

    fn max_args(&self) -> (r: Option<usize>) {
        Some(1)
    }
}

/// `DECRBY key decrement`: takes the decrement from the number under the
/// key.
pub struct DecrByCommand;

/// What `DECRBY` does.
pub open spec fn decrby_outcome(pre: ContextView, args: Seq<Frame>, now: Moment) -> Outcome {
    if args.len() < 2 {
        unchanged(pre, wrong_args("DECRBY"@))
    } else if !(args[0] is BulkString) {
        unchanged(pre, not_bulk())
    } else {
        match integer_arg(args[1]) {
            Err(e) => unchanged(pre, err(e)),
            Ok(n) => counter_outcome(pre, args[0]->BulkString_0, -(n as int), false, false, now),
        }
    }
}

impl Command for DecrByCommand {
    open spec fn label(&self) -> Seq<char> {
        "DECRBY"@
    }

    open spec fn least_args(&self) -> nat {
        2
    }

    open spec fn most_args(&self) -> Option<nat> {
        Some(2)
    }

    open spec fn accepts(
        &self,
        pre: ContextView,
        args: Seq<Frame>,
        now: Moment,
        post: ContextView,
        reply: Frame,
    ) -> bool {
        (Outcome { post, reply }) == decrby_outcome(pre, args, now)
    }

    fn execute_at(&self, ctx: &mut CommandContext, args: &[RespValue], now: Moment) -> (reply:
        RespValue) {
        if args.len() < 2 {
            return wrong_args_reply("DECRBY");
        }
        let key = match extract_bulk_string(&args[0]) {
            Ok(k) => k,
            Err(e) => {
                return err_reply(e);
            },
        };
        let decrement = match extract_integer(&args[1]) {
            Ok(i) => i,
            Err(e) => {
                return err_reply(e);
            },
        };
        run_counter(ctx, key.as_slice(), decrement, false, false, now)
    }

    fn name(&self) -> (r: &'static str) {
        "DECRBY"
    }

    fn min_args(&self) -> (r: usize) {
        2
    }

    fn max_args(&self) -> (r: Option<usize>) {
        Some(2)
    }
}

} // verus!
