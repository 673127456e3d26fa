//! EXPIRE and TTL.

use vstd::prelude::*;
use crate::aof::entry::AofOperation;
use crate::commands::context::CommandContext;
use crate::commands::context::ContextView;
use crate::commands::err;
use crate::commands::err_reply;
use crate::commands::extract_bulk_string;
use crate::commands::extract_integer;
use crate::commands::integer_arg;
use crate::commands::log_to_aof;
use crate::commands::logged;
use crate::commands::not_bulk;
use crate::commands::record;
use crate::commands::unchanged;
use crate::commands::wrong_args;
use crate::commands::wrong_args_reply;
use crate::commands::Command;
use crate::commands::Outcome;
use crate::octets::copy_bytes;
use crate::protocol::decimal::decimal;
use crate::protocol::decimal::format_i64;
use crate::protocol::types::Frame;
use crate::protocol::types::RespValue;
use crate::store::clock::Moment;
use crate::store::memory::evict;
use crate::store::memory::expire_in;
use crate::store::memory::keys_view;
use crate::store::memory::live;
use crate::store::memory::ttl_of;

verus! {

/// `EXPIRE key seconds`: sets the key's time to live, or clears it where
/// `seconds` is not positive; answers 1, or 0 where the key is absent.
pub struct ExpireCommand;

/// What `EXPIRE` does.
pub open spec fn expire_outcome(pre: ContextView, args: Seq<Frame>, now: Moment) -> Outcome {
    if args.len() < 2 {
        unchanged(pre, wrong_args("EXPIRE"@))
    } else if !(args[0] is BulkString) {
        unchanged(pre, not_bulk())
    } else {
        match integer_arg(args[1]) {
            Err(e) => unchanged(pre, err(e)),
            Ok(seconds) => {
                let key = args[0]->BulkString_0;
                let store = expire_in(pre.store, key, seconds, now.monotonic);
                if live(pre.store, key, now.monotonic) {
                    Outcome {
                        post: ContextView {
                            store,
                            aof: logged(
                                pre.aof,
                                seq![
                                    record(
                                        AofOperation::Expire,
                                        key,
                                        seq![decimal(seconds as int)],
                                        now,
                                    ),
                                ],
                                now,
                            ),
                            ..pre
                        },
                        reply: Frame::Integer(1),
                    }
                } else {
                    Outcome { post: pre.with_store(store), reply: Frame::Integer(0) }
                }
            },
        }
    }
}

impl Command for ExpireCommand {
    open spec fn label(&self) -> Seq<char> {
        "EXPIRE"@
    }

    open spec fn least_args(&self) -> nat {
        2
    }

    open spec fn most_args(&self) -> Option<nat> {
        Some(2)
    }

    open spec fn accepts(
        &self,
        pre: ContextView,
        args: Seq<Frame>,
        now: Moment,
        post: ContextView,
        reply: Frame,
    ) -> bool {
        (Outcome { post, reply }) == expire_outcome(pre, args, now)
    }

    fn execute_at(&self, ctx: &mut CommandContext, args: &[RespValue], now: Moment) -> (reply:
        RespValue) {
        if args.len() < 2 {
            return wrong_args_reply("EXPIRE");
        }
        let key = match extract_bulk_string(&args[0]) {
            Ok(k) => k,
            Err(e) => {
                return err_reply(e);
            },
        };
        let seconds = match extract_integer(&args[1]) {
            Ok(s) => s,
            Err(e) => {
                return err_reply(e);
            },
        };
        if ctx.store.expire_at(key.as_slice(), seconds, now.monotonic) {
            let mut payload: Vec<Vec<u8>> = Vec::new();
            payload.push(format_i64(seconds));
            assert(keys_view(payload@) =~= seq![decimal(seconds as int)]);
            log_to_aof(ctx, AofOperation::Expire, copy_bytes(key.as_slice()), payload, now);
            RespValue::integer(1)
        } else {
            RespValue::integer(0)
        }
    }

    fn name(&self) -> (r: &'static str) {
        "EXPIRE"
    }

    fn min_args(&self) -> (r: usize) {
        2
    }

    fn max_args(&self) -> (r: Option<usize>) {
        Some(2)
    }
}

/// `TTL key`: the key's time to live in seconds; -1 without expiry, -2
/// where the key is absent.
pub struct TtlCommand;

/// What `TTL` does.
pub open spec fn ttl_outcome(pre: ContextView, args: Seq<Frame>, now: Moment) -> Outcome {
    if args.len() == 0 {
        unchanged(pre, wrong_args("TTL"@))
    } else if !(args[0] is BulkString) {
        unchanged(pre, not_bulk())
    } else {
        let key = args[0]->BulkString_0;
        Outcome {
            post: pre.with_store(evict(pre.store, key, now.monotonic)),
            reply: Frame::Integer(ttl_of(pre.store, key, now.monotonic)),
        }
    }
}

impl Command for TtlCommand {
    open spec fn label(&self) -> Seq<char> {
        "TTL"@
    }

    open spec fn least_args(&self) -> nat {
        1
    }

    open spec fn most_args(&self) -> Option<nat> {
        Some(1)
    }

    open spec fn accepts(
        &self,
        pre: ContextView,
        args: Seq<Frame>,
        now: Moment,
        post: ContextView,
        reply: Frame,
    ) -> bool {
        (Outcome { post, reply }) == ttl_outcome(pre, args, now)
    }

    fn execute_at(&self, ctx: &mut CommandContext, args: &[RespValue], now: Moment) -> (reply:
        RespValue) {
        if args.len() == 0 {
            return wrong_args_reply("TTL");
        }
        let key = match extract_bulk_string(&args[0]) {
            Ok(k) => k,
            Err(e) => {
                return err_reply(e);
            },
        };
        let ttl = ctx.store.ttl_at(key.as_slice(), now.monotonic);
        RespValue::integer(ttl)
    }

    fn name(&self) -> (r: &'static str) {
        "TTL"
    }

    fn min_args(&self) -> (r: usize) {
        1
    }

    fn max_args(&self) -> (r: Option<usize>) {
        Some(1)
    }
}

} // verus!
