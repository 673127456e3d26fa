//! The commands: one type for each, behind one trait.

use vstd::prelude::*;
use vstd::utf8::valid_utf8;
use crate::aof::entry::AofEntry;
use crate::aof::entry::AofEntryView;
use crate::aof::entry::AofOperation;
use crate::aof::writer::WriterView;
use crate::protocol::decimal::parse_decimal;
use crate::protocol::decimal::parse_i64;
use crate::protocol::text::concat;
use crate::protocol::text::concat3;
use crate::protocol::text::is_utf8;
use crate::protocol::types::frames;
use crate::protocol::types::Frame;
use crate::protocol::types::RespValue;
use crate::store::clock::Moment;
use crate::store::memory::keys_view;

pub mod context;
pub mod admin;
pub mod counter;
pub mod durability;
pub mod hash;
pub mod key;
pub mod laws;
pub mod list;
pub mod registry;
pub mod search;
pub mod set;
pub mod ttl;
pub mod string;

pub use admin::ClientCommand;
pub use admin::FlushDbCommand;
pub use admin::InfoCommand;
pub use context::CommandContext;
pub use context::ContextView;
pub use counter::DecrByCommand;
pub use counter::DecrCommand;
pub use counter::IncrByCommand;
pub use counter::IncrCommand;
pub use hash::HDelCommand;
pub use hash::HGetAllCommand;
pub use hash::HGetCommand;
pub use hash::HIncrByCommand;
pub use hash::HKeysCommand;
pub use hash::HSetCommand;
pub use key::DelCommand;
pub use key::ExistsCommand;
pub use list::LLenCommand;
pub use list::LPushCommand;
pub use list::LRangeCommand;
pub use list::RPushCommand;
pub use registry::AnyCommand;
pub use registry::CommandRegistry;
pub use search::matches_pattern;
pub use search::KeysCommand;
pub use set::SAddCommand;
pub use set::SCardCommand;
pub use set::SMembersCommand;
pub use string::GetCommand;
pub use string::SetCommand;
pub use ttl::ExpireCommand;
pub use ttl::TtlCommand;

verus! {

/// A command of the catalogue.
///
/// `accepts` says which outcomes the command may have: for the context
/// before, the arguments and the instant, which contexts afterwards and
/// which replies. `execute_at` runs the command at a given instant;
/// `execute` reads the store's clock and runs it at that instant.
pub trait Command {
    /// The name of the command.
    spec fn label(&self) -> Seq<char>;

    /// The least number of arguments.
    spec fn least_args(&self) -> nat;

    /// The greatest number of arguments, if there is one.
    spec fn most_args(&self) -> Option<nat>;

    /// Whether the command, run on `pre` with `args` at `now`, may leave
    /// `post` and answer `reply`.
    spec fn accepts(
        &self,
        pre: ContextView,
        args: Seq<Frame>,
        now: Moment,
        post: ContextView,
        reply: Frame,
    ) -> bool;

    /// Runs the command at `now`. `args` are the arguments without the
    /// command's name.
    fn execute_at(&self, ctx: &mut CommandContext, args: &[RespValue], now: Moment) -> (reply:
        RespValue)
        ensures
            self.accepts(old(ctx)@, frames(args@), now, final(ctx)@, reply@),
    ;

    /// Runs the command at the instant the store's clock shows.
    fn execute(&self, ctx: &mut CommandContext, args: &[RespValue]) -> (reply: RespValue)
        ensures
            exists|now: Moment| self.accepts(old(ctx)@, frames(args@), now, final(ctx)@, reply@),
    {
        let now = ctx.store.clock().moment();
        self.execute_at(ctx, args, now)
    }

    /// The name of the command.
    fn name(&self) -> (r: &'static str)
        ensures
            r@ == self.label(),
    ;

    /// The least number of arguments.
    fn min_args(&self) -> (r: usize)
        ensures
            r == self.least_args(),
    ;

    /// The greatest number of arguments, if there is one.
    fn max_args(&self) -> (r: Option<usize>)
        ensures
            match r {
                Some(n) => self.most_args() == Some(n as nat),
                None => self.most_args() is None,
            },
    ;
}

/// A context after a command, and the command's reply.
pub ghost struct Outcome {
    pub post: ContextView,
    pub reply: Frame,
}

/// The outcome that leaves the context as it was.
pub open spec fn unchanged(pre: ContextView, reply: Frame) -> Outcome {
    Outcome { post: pre, reply }
}

/// The reply for an error `message`.
pub open spec fn err(message: Seq<char>) -> Frame {
    Frame::Error("ERR "@ + message)
}

/// The reply for a wrong number of arguments to the command `name`.
pub open spec fn wrong_args(name: Seq<char>) -> Frame {
    Frame::Error("ERR wrong number of arguments for '"@ + name + "' command"@)
}

/// The reply for a key that holds a value of another kind.
pub open spec fn wrong_type() -> Frame {
    Frame::Error("WRONGTYPE Operation against a key holding the wrong kind of value"@)
}

/// The reply `+OK`.
pub open spec fn ok() -> Frame {
    Frame::SimpleString("OK"@)
}

/// The reply for an argument that is no bulk string.
pub open spec fn not_bulk() -> Frame {
    err("Expected bulk string"@)
}

/// Whether every argument from position `from` on is a bulk string.
pub open spec fn all_bulk(args: Seq<Frame>, from: int) -> bool {
    forall|i: int| from <= i < args.len() ==> #[trigger] args[i] is BulkString
}

/// The bytes of the arguments from position `from` on.
pub open spec fn bulks(args: Seq<Frame>, from: int) -> Seq<Seq<u8>> {
    Seq::new((args.len() - from) as nat, |i: int| args[from + i]->BulkString_0)
}

/// An integer argument: an integer, or a bulk string that spells one.
pub open spec fn integer_arg(f: Frame) -> Result<i64, Seq<char>> {
    match f {
        Frame::Integer(i) => Ok(i),
        Frame::BulkString(b) => if !valid_utf8(b) {
            Err("Invalid UTF-8"@)
        } else {
            match parse_decimal(b) {
                Some(i) => Ok(i),
                None => Err("Invalid integer"@),
            }
        },
        _ => Err("Expected integer or bulk string"@),
    }
}

/// The log entry for the operation `op` on `key` with `payload`, made at
/// `now`.
pub open spec fn record(op: AofOperation, key: Seq<u8>, payload: Seq<Seq<u8>>, now: Moment) -> AofEntryView {
    AofEntryView { op, timestamp: now.wall_millis, key, payload }
}

/// The log writer after `entries` are logged at `now`; nothing where no log
/// is kept.
pub open spec fn logged(aof: Option<WriterView>, entries: Seq<AofEntryView>, now: Moment) -> Option<
    WriterView,
> {
    match aof {
        Some(w) => Some(w.write_all(entries, now.monotonic)),
        None => None,
    }
}

/// The bytes of a bulk string argument.
pub fn extract_bulk_string(value: &RespValue) -> (r: Result<&Vec<u8>, &'static str>)
    ensures
        match r {
            Ok(b) => value@ == Frame::BulkString(b@),
            Err(e) => !(value@ is BulkString) && e@ == "Expected bulk string"@,
        },
{
    match value.as_bulk_string() {
        Some(b) => Ok(b),
        None => Err("Expected bulk string"),
    }
}

/// The number of an integer argument: an integer, or a bulk string that
/// spells one.
pub fn extract_integer(value: &RespValue) -> (r: Result<i64, &'static str>)
    ensures
        match r {
            Ok(i) => integer_arg(value@) == Ok::<i64, Seq<char>>(i),
            Err(e) => integer_arg(value@) == Err::<i64, Seq<char>>(e@),
        },
{
    match value {
        RespValue::Integer(i) => Ok(*i),
        RespValue::BulkString(bytes) => {
            if !is_utf8(bytes.as_slice()) {
                Err("Invalid UTF-8")
            } else {
                match parse_i64(bytes.as_slice()) {
                    Some(i) => Ok(i),
                    None => Err("Invalid integer"),
                }
            }
        },
        _ => Err("Expected integer or bulk string"),
    }
}

/// Logs the operation `op` on `key` with `payload`, where a log is kept.
pub fn log_to_aof(
    ctx: &mut CommandContext,
    op: AofOperation,
    key: Vec<u8>,
    payload: Vec<Vec<u8>>,
    now: Moment,
)
    ensures
        final(ctx)@ == (ContextView {
            aof: logged(old(ctx)@.aof, seq![record(op, key@, keys_view(payload@), now)], now),
            ..old(ctx)@
        }),
        final(ctx).store == old(ctx).store,
{
    let ghost entry = record(op, key@, keys_view(payload@), now);
    match &mut ctx.aof_writer {
        Some(writer) => {
            let ghost before = writer@;
            let made = AofEntry::with_timestamp(op, now.wall_millis, key, payload);
            writer.write(&made, now.monotonic);
            proof {
                assert(seq![entry].drop_last() =~= Seq::<AofEntryView>::empty());
                assert(before.write_all(seq![entry].drop_last(), now.monotonic) == before);
                assert(seq![entry].last() == entry);
                assert(before.write_all(seq![entry], now.monotonic) == before.write(
                    entry,
                    now.monotonic,
                ));
            }
        },
        None => {},
    }
}

/// The reply for an error `message`.
pub fn err_reply(message: &str) -> (r: RespValue)
    ensures
        r@ == err(message@),
{
    RespValue::Error(concat("ERR ", message))
}

/// The reply for a wrong number of arguments to the command `name`.
pub fn wrong_args_reply(name: &str) -> (r: RespValue)
    ensures
        r@ == wrong_args(name@),
{
    RespValue::Error(concat3("ERR wrong number of arguments for '", name, "' command"))
}

/// The reply for a key that holds a value of another kind.
pub fn wrong_type_reply() -> (r: RespValue)
    ensures
        r@ == wrong_type(),
{
    RespValue::error("WRONGTYPE Operation against a key holding the wrong kind of value")
}

/// Whether every argument from position `from` on is a bulk string.
pub fn check_all_bulk(args: &[RespValue], from: usize) -> (r: bool)
    ensures
        r == all_bulk(frames(args@), from as int),
{
    let mut i: usize = from;
    while i < args.len()
        invariant
            from <= i || i == from,
            forall|j: int| from <= j < i && j < args@.len() ==> #[trigger] frames(args@)[j] is BulkString,
        decreases args@.len() - i,
    {
        match &args[i] {
            RespValue::BulkString(_) => {},
            _ => {
                assert(!(frames(args@)[i as int] is BulkString));
                return false;
            },
        }
        i += 1;
    }
    true
}

} // verus!
