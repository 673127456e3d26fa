//! INFO, FLUSHDB and CLIENT.

use vstd::prelude::*;
use vstd::utf8::decode_utf8;
use vstd::utf8::encode_utf8;
use vstd::utf8::valid_utf8;
use crate::commands::context::CommandContext;
use crate::commands::context::ContextView;
use crate::commands::ok;
use crate::commands::unchanged;
use crate::commands::Command;
use crate::commands::Outcome;
use crate::octets::append_bytes;
use crate::octets::bytes_eq;
use crate::protocol::decimal::decimal;
use crate::protocol::decimal::format_usize;
use crate::protocol::text::concat3;
use crate::protocol::text::str_from_utf8;
use crate::protocol::text::str_to_uppercase;
use crate::protocol::text::folded;
use crate::protocol::types::Frame;
use crate::protocol::types::RespValue;
use crate::store::clock::Moment;
use crate::store::memory::live_keys;

verus! {

/// The text of INFO: the server section, then the keyspace section with the
/// number of keys that have not expired and the number that have.
pub open spec fn info_text(os: Seq<char>, arch: Seq<char>, keys: nat, expires: nat) -> Seq<u8> {
    encode_utf8("# Server\r\nferrumdb_version:0.1.0\r\nferrumdb_mode:standalone\r\nos:"@)
        + encode_utf8(os) + encode_utf8("\r\narch:"@) + encode_utf8(arch) + encode_utf8(
        "\r\n\r\n# Keyspace\r\ndb0:keys="@,
    ) + decimal(keys as int) + encode_utf8(",expires="@) + decimal(expires as int) + encode_utf8(
        "\r\n"@,
    )
}

/// `INFO [section]`: facts about the server and its keys.
pub struct InfoCommand;

/// What `INFO` does.
pub open spec fn info_outcome(pre: ContextView, args: Seq<Frame>, now: Moment) -> Outcome {
    let active = live_keys(pre.store, now.monotonic).len();
    unchanged(
        pre,
        Frame::BulkString(
            info_text(pre.os, pre.arch, active, (pre.store.len() - active) as nat),
        ),
    )
}

impl Command for InfoCommand {
    open spec fn label(&self) -> Seq<char> {
        "INFO"@
    }

    open spec fn least_args(&self) -> nat {
        0
    }

    open spec fn most_args(&self) -> Option<nat> {
        Some(1)
    }

    open spec fn accepts(
        &self,
        pre: ContextView,
        args: Seq<Frame>,
        now: Moment,
        post: ContextView,
        reply: Frame,
    ) -> bool {
        (Outcome { post, reply }) == info_outcome(pre, args, now)
    }

    fn execute_at(&self, ctx: &mut CommandContext, args: &[RespValue], now: Moment) -> (reply:
        RespValue) {
        let stats = ctx.store.stats_at(now.monotonic);
        let mut out: Vec<u8> = Vec::new();
        append_bytes(
            &mut out,
            "# Server\r\nferrumdb_version:0.1.0\r\nferrumdb_mode:standalone\r\nos:".as_bytes(),
        );
        append_bytes(&mut out, ctx.os.as_str().as_bytes());
        append_bytes(&mut out, "\r\narch:".as_bytes());
        append_bytes(&mut out, ctx.arch.as_str().as_bytes());
        append_bytes(&mut out, "\r\n\r\n# Keyspace\r\ndb0:keys=".as_bytes());
        append_bytes(&mut out, format_usize(stats.active_keys).as_slice());
        append_bytes(&mut out, ",expires=".as_bytes());
        append_bytes(&mut out, format_usize(stats.expired_keys).as_slice());
        append_bytes(&mut out, "\r\n".as_bytes());
        proof {
            let active = live_keys(ctx@.store, now.monotonic).len();
            assert(out@ =~= info_text(
                ctx@.os,
                ctx@.arch,
                active,
                (ctx@.store.len() - active) as nat,
            ));
        }
        RespValue::bulk_string(out)
    }

    fn name(&self) -> (r: &'static str) {
        "INFO"
    }

    fn min_args(&self) -> (r: usize) {
        0
    }

    fn max_args(&self) -> (r: Option<usize>) {
        Some(1)
    }
}

/// `FLUSHDB`: drops every key.
pub struct FlushDbCommand;

/// What `FLUSHDB` does.
pub open spec fn flushdb_outcome(pre: ContextView, args: Seq<Frame>, now: Moment) -> Outcome {
    Outcome { post: pre.with_store(Map::empty()), reply: ok() }
}

impl Command for FlushDbCommand {
    open spec fn label(&self) -> Seq<char> {
        "FLUSHDB"@
    }

    open spec fn least_args(&self) -> nat {
        0
    }

    open spec fn most_args(&self) -> Option<nat> {
        Some(0)
    }

    open spec fn accepts(
        &self,
        pre: ContextView,
        args: Seq<Frame>,
        now: Moment,
        post: ContextView,
        reply: Frame,
    ) -> bool {
        (Outcome { post, reply }) == flushdb_outcome(pre, args, now)
    }

    fn execute_at(&self, ctx: &mut CommandContext, args: &[RespValue], now: Moment) -> (reply:
        RespValue) {
        ctx.store.clear();
        RespValue::simple_string("OK")
    }

    fn name(&self) -> (r: &'static str) {
        "FLUSHDB"
    }

    fn min_args(&self) -> (r: usize) {
        0
    }

    fn max_args(&self) -> (r: Option<usize>) {
        Some(0)
    }
}

/// The reply of `CLIENT` to the subcommand whose upper-case name is `sub`,
/// given with `count` arguments in all.
pub open spec fn client_reply(sub: Seq<char>, count: nat) -> Frame {
    if sub == "SETNAME"@ {
        if count != 2 {
            Frame::Error("ERR wrong number of arguments for 'client setname'"@)
        } else {
            ok()
        }
    } else if sub == "GETNAME"@ {
        Frame::Null
    } else if sub == "LIST"@ {
        Frame::BulkString(Seq::empty())
    } else if sub == "SETINFO"@ {
        ok()
    } else if sub == "REPLY"@ {
        ok()
    } else if sub == "ID"@ {
        Frame::Integer(1)
    } else {
        Frame::Error("ERR unknown subcommand '"@ + sub + "'"@)
    }
}

/// Whether two strings are the same.
pub fn str_eq(a: &str, b: &str) -> (r: bool)
    ensures
        r == (a@ == b@),
{
    proof {
        vstd::utf8::encode_utf8_decode_utf8(a@);
        vstd::utf8::encode_utf8_decode_utf8(b@);
    }
    bytes_eq(a.as_bytes(), b.as_bytes())
}

/// Answers the `CLIENT` subcommand whose upper-case name is `sub`, given
/// with `count` arguments in all.
pub fn answer_client(sub: &str, count: usize) -> (r: RespValue)
    ensures
        r@ == client_reply(sub@, count as nat),
{
    if str_eq(sub, "SETNAME") {
        if count != 2 {
            RespValue::error("ERR wrong number of arguments for 'client setname'")
        } else {
            RespValue::simple_string("OK")
        }
    } else if str_eq(sub, "GETNAME") {
        RespValue::Null
    } else if str_eq(sub, "LIST") {
        RespValue::bulk_string(Vec::new())
    } else if str_eq(sub, "SETINFO") {
        RespValue::simple_string("OK")
    } else if str_eq(sub, "REPLY") {
        RespValue::simple_string("OK")
    } else if str_eq(sub, "ID") {
        RespValue::Integer(1)
    } else {
        RespValue::Error(concat3("ERR unknown subcommand '", sub, "'"))
    }
}

/// `CLIENT subcommand [argument ...]`: answers for compatibility; no state
/// is kept for a client.
pub struct ClientCommand;

/// What `CLIENT` does.
pub open spec fn client_outcome(pre: ContextView, args: Seq<Frame>, now: Moment) -> Outcome {
    if args.len() == 0 {
        unchanged(pre, Frame::Error("ERR wrong number of arguments for 'client' command"@))
    } else if !(args[0] is BulkString) || !valid_utf8(args[0]->BulkString_0) {
        unchanged(pre, Frame::Error("ERR invalid subcommand"@))
    } else {
        unchanged(pre, client_reply(folded(decode_utf8(args[0]->BulkString_0)), args.len()))
    }
}

impl Command for ClientCommand {
    open spec fn label(&self) -> Seq<char> {
        "CLIENT"@
    }

    open spec fn least_args(&self) -> nat {
        1
    }

    open spec fn most_args(&self) -> Option<nat> {
        None
    }

    open spec fn accepts(
        &self,
        pre: ContextView,
        args: Seq<Frame>,
        now: Moment,
        post: ContextView,
        reply: Frame,
    ) -> bool {
        (Outcome { post, reply }) == client_outcome(pre, args, now)
    }

    fn execute_at(&self, ctx: &mut CommandContext, args: &[RespValue], now: Moment) -> (reply:
        RespValue) {
        if args.len() == 0 {
            return RespValue::error("ERR wrong number of arguments for 'client' command");
        }
        let subcommand = match &args[0] {
            RespValue::BulkString(bytes) => match str_from_utf8(bytes.as_slice()) {
                Some(s) => {
                    proof {
                        vstd::utf8::encode_utf8_decode_utf8(s@);
                    }
                    str_to_uppercase(s)
                },
                None => {
                    return RespValue::error("ERR invalid subcommand");
                },
            },
            _ => {
                return RespValue::error("ERR invalid subcommand");
            },
        };
        answer_client(subcommand.as_str(), args.len())
    }

    fn name(&self) -> (r: &'static str) {
        "CLIENT"
    }

    fn min_args(&self) -> (r: usize) {
        1
    }

    fn max_args(&self) -> (r: Option<usize>) {
        None
    }
}

} // verus!
