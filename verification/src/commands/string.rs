//! SET and GET.

use vstd::prelude::*;
use crate::aof::entry::AofOperation;
use crate::commands::context::CommandContext;
use crate::commands::context::ContextView;
use crate::commands::err_reply;
use crate::commands::extract_bulk_string;
use crate::commands::log_to_aof;
use crate::commands::logged;
use crate::commands::not_bulk;
use crate::commands::ok;
use crate::commands::record;
use crate::commands::unchanged;
use crate::commands::wrong_args;
use crate::commands::wrong_args_reply;
use crate::commands::wrong_type;
use crate::commands::wrong_type_reply;
use crate::commands::Command;
use crate::commands::Outcome;
use crate::octets::copy_bytes;
use crate::protocol::decimal::decimal;
use crate::protocol::decimal::format_i64;
use crate::protocol::types::Frame;
use crate::protocol::types::RespValue;
use crate::store::clock::Moment;
use crate::store::entry::EntryView;
use crate::store::memory::evict;
use crate::store::memory::live;
use crate::store::value::Value;
use crate::store::value::ValueView;

verus! {

/// `SET key value`: puts a string under the key.
pub struct SetCommand;

/// What `SET` does.
pub open spec fn set_outcome(pre: ContextView, args: Seq<Frame>, now: Moment) -> Outcome {
    if args.len() < 2 {
        unchanged(pre, wrong_args("SET"@))
    } else if !(args[0] is BulkString) || !(args[1] is BulkString) {
        unchanged(pre, not_bulk())
    } else {
        let key = args[0]->BulkString_0;
        let value = args[1]->BulkString_0;
        Outcome {
            post: ContextView {
                store: pre.store.insert(key, EntryView::fresh(key, ValueView::String(value))),
                aof: logged(pre.aof, seq![record(AofOperation::SetKey, key, seq![value], now)], now),
                ..pre
            },
            reply: ok(),
        }
    }
}

impl Command for SetCommand {
    open spec fn label(&self) -> Seq<char> {
        "SET"@
    }

    open spec fn least_args(&self) -> nat {
        2
    }

    open spec fn most_args(&self) -> Option<nat> {
        None
    }

    open spec fn accepts(
        &self,
        pre: ContextView,
        args: Seq<Frame>,
        now: Moment,
        post: ContextView,
        reply: Frame,
    ) -> bool {
        (Outcome { post, reply }) == set_outcome(pre, args, now)
    }

    fn execute_at(&self, ctx: &mut CommandContext, args: &[RespValue], now: Moment) -> (reply:
        RespValue) {
        if args.len() < 2 {
            return wrong_args_reply("SET");
        }
        let key = match extract_bulk_string(&args[0]) {
            Ok(k) => copy_bytes(k.as_slice()),
            Err(e) => {
                return err_reply(e);
            },
        };
        let value = match extract_bulk_string(&args[1]) {
            Ok(v) => copy_bytes(v.as_slice()),
            Err(e) => {
                return err_reply(e);
            },
        };
        let mut payload: Vec<Vec<u8>> = Vec::new();
        payload.push(copy_bytes(value.as_slice()));
        assert(crate::store::memory::keys_view(payload@) =~= seq![value@]);
        log_to_aof(ctx, AofOperation::SetKey, copy_bytes(key.as_slice()), payload, now);
        ctx.store.set(key, Value::String(value));
        RespValue::simple_string("OK")
    }

    fn name(&self) -> (r: &'static str) {
        "SET"
    }

    fn min_args(&self) -> (r: usize) {
        2
    }

    fn max_args(&self) -> (r: Option<usize>) {
        None
    }
}

/// `GET key`: the string under the key.
pub struct GetCommand;

/// What `GET` does.
pub open spec fn get_outcome(pre: ContextView, args: Seq<Frame>, now: Moment) -> Outcome {
    if args.len() == 0 {
        unchanged(pre, wrong_args("GET"@))
    } else if !(args[0] is BulkString) {
        unchanged(pre, not_bulk())
    } else {
        let key = args[0]->BulkString_0;
        Outcome {
            post: pre.with_store(evict(pre.store, key, now.monotonic)),
            reply: if live(pre.store, key, now.monotonic) {
                match pre.store[key].value {
                    ValueView::String(b) => Frame::BulkString(b),
                    ValueView::Integer(i) => Frame::BulkString(decimal(i as int)),
                    _ => wrong_type(),
                }
            } else {
                Frame::Null
            },
        }
    }
}

impl Command for GetCommand {
    open spec fn label(&self) -> Seq<char> {
        "GET"@
    }

    open spec fn least_args(&self) -> nat {
        1
    }

    open spec fn most_args(&self) -> Option<nat> {
        Some(1)
    }

    open spec fn accepts(
        &self,
        pre: ContextView,
        args: Seq<Frame>,
        now: Moment,
        post: ContextView,
        reply: Frame,
    ) -> bool {
        (Outcome { post, reply }) == get_outcome(pre, args, now)
    }

    fn execute_at(&self, ctx: &mut CommandContext, args: &[RespValue], now: Moment) -> (reply:
        RespValue) {
        if args.len() == 0 {
            return wrong_args_reply("GET");
        }
        let key = match extract_bulk_string(&args[0]) {
            Ok(k) => k,
            Err(e) => {
                return err_reply(e);
            },
        };
        match ctx.store.get_at(key.as_slice(), now.monotonic) {
            Some(value) => match value {
                Value::String(bytes) => RespValue::bulk_string(copy_bytes(bytes.as_slice())),
                Value::Integer(i) => RespValue::bulk_string(format_i64(*i)),
                _ => wrong_type_reply(),
            },
            None => RespValue::null(),
        }
    }

    fn name(&self) -> (r: &'static str) {
        "GET"
    }

    fn min_args(&self) -> (r: usize) {
        1
    }

    fn max_args(&self) -> (r: Option<usize>) {
        Some(1)
    }
}

} // verus!
