//! The dispatcher: from a frame to the command it names, and the command's
//! reply.

use vstd::prelude::*;
use vstd::slice::slice_subrange;
use vstd::utf8::decode_utf8;
use vstd::utf8::valid_utf8;
use crate::aof::reader::decode_all;
use crate::aof::reader::AofReader;
use crate::aof::replay::replay_all;
use crate::aof::replay::replay_entries_at;
use crate::aof::writer::AofWriter;
use crate::aof::writer::WriterView;
use crate::aof::AofConfig;
use crate::commands::context::CommandContext;
use crate::commands::context::ContextView;
use crate::commands::registry::catalogue;
use crate::commands::registry::AnyCommand;
use crate::commands::registry::CommandRegistry;
use crate::commands::wrong_args;
use crate::commands::wrong_args_reply;
use crate::commands::Command;
use crate::protocol::text::concat3;
use crate::protocol::text::str_from_utf8;
use crate::protocol::text::folded;
use crate::protocol::types::frames;
use crate::protocol::types::Frame;
use crate::protocol::types::RespValue;
use crate::store::clock::Moment;

verus! {

/// The reply to a command that the catalogue does not have.
pub open spec fn unknown_command(name: Seq<char>) -> Frame {
    Frame::Error("ERR unknown command '"@ + name + "'"@)
}

/// Whether `count` arguments are a number that `command` takes.
pub open spec fn arity_ok(command: AnyCommand, count: nat) -> bool {
    command.least_args() <= count && (command.most_args() matches Some(most) ==> count <= most)
}

/// Whether dispatching `frame` on `pre` at `now` may leave `post` and answer
/// `reply`.
///
/// A frame that is no array of a command name and its arguments is answered
/// with an error, as are a name that the catalogue does not have and a
/// number of arguments that the command does not take; the context then
/// stays as it is. Otherwise the command decides.
pub open spec fn dispatches(
    pre: ContextView,
    frame: Frame,
    now: Moment,
    post: ContextView,
    reply: Frame,
) -> bool {
    match frame {
        Frame::Array(parts) => if parts.len() == 0 {
            post == pre && reply == Frame::Error("ERR empty command array"@)
        } else {
            match parts[0] {
                Frame::BulkString(name) => if !valid_utf8(name) {
                    post == pre && reply == Frame::Error("ERR invalid command name encoding"@)
                } else {
                    let text = decode_utf8(name);
                    match catalogue(folded(text)) {
                        None => post == pre && reply == unknown_command(text),
                        Some(command) => if !arity_ok(command, (parts.len() - 1) as nat) {
                            post == pre && reply == wrong_args(text)
                        } else {
                            command.accepts(pre, parts.skip(1), now, post, reply)
                        },
                    }
                },
                _ => post == pre && reply == Frame::Error(
                    "ERR command name must be a bulk string"@,
                ),
            }
        },
        _ => post == pre && reply == Frame::Error("ERR expected array"@),
    }
}

/// The context that a dispatcher starts from: the store that the entries of
/// the log `existing` give when replayed at `now`, and a writer where a log
/// is kept.
pub open spec fn restored(config: AofConfig, existing: Option<Seq<u8>>, now: Moment) -> ContextView {
    ContextView {
        store: if config.enabled && existing is Some {
            replay_all(Map::empty(), decode_all(existing->0), now.monotonic).0
        } else {
            Map::empty()
        },
        aof: if config.enabled {
            Some(
                WriterView {
                    policy: config.sync_policy,
                    last_sync: now.monotonic,
                    pending: Seq::empty(),
                    sync_due: false,
                },
            )
        } else {
            None
        },
        os: "unknown"@,
        arch: "unknown"@,
    }
}

/// The bytes that `existing` holds, if any.
pub open spec fn log_view(existing: Option<Vec<u8>>) -> Option<Seq<u8>> {
    match existing {
        Some(bytes) => Some(bytes@),
        None => None,
    }
}

/// The dispatcher of a store that is not sharded.
pub struct Dispatcher {
    registry: CommandRegistry,
    context: CommandContext,
}

impl View for Dispatcher {
    type V = ContextView;

    closed spec fn view(&self) -> ContextView {
        self.context@
    }
}

impl Dispatcher {
    /// A dispatcher over an empty store, without a log.
    pub fn new() -> (r: Self)
        ensures
            r@ == (ContextView {
                store: Map::empty(),
                aof: None,
                os: "unknown"@,
                arch: "unknown"@,
            }),
    {
        Dispatcher { registry: CommandRegistry::new(), context: CommandContext::new() }
    }

    /// A dispatcher over an empty store, without a log. The capacity is a
    /// hint.
    pub fn with_capacity(capacity: usize) -> (r: Self)
        ensures
            r@ == (ContextView {
                store: Map::empty(),
                aof: None,
                os: "unknown"@,
                arch: "unknown"@,
            }),
    {
        Dispatcher {
            registry: CommandRegistry::new(),
            context: CommandContext::with_capacity(capacity),
        }
    }

    /// A dispatcher over the given context.
    pub fn with_context(context: CommandContext) -> (r: Self)
        ensures
            r@ == context@,
    {
        Dispatcher { registry: CommandRegistry::new(), context }
    }

    /// A dispatcher that keeps a log as `config` says. `existing` holds the
    /// bytes of the log file where there is one; its entries are replayed at
    /// `now`.
    pub fn with_aof_at(config: &AofConfig, existing: Option<Vec<u8>>, now: Moment) -> (r: Self)
        ensures
            r@ == restored(*config, log_view(existing), now),
    {
        let mut context = CommandContext::new();
        if config.enabled {
            match existing {
                Some(bytes) => {
                    let reader = AofReader::from_data(bytes);
                    let entries = reader.parse_entries();
                    let _ = replay_entries_at(&mut context.store, &entries, now.monotonic);
                },
                None => {},
            }
            context.set_aof_writer(AofWriter::new(config.sync_policy, now.monotonic));
        }
        Dispatcher { registry: CommandRegistry::new(), context }
    }

    /// `with_aof_at` at the instant the clock of the new store shows.
    pub fn with_aof(config: &AofConfig, existing: Option<Vec<u8>>) -> (r: Self)
        ensures
            exists|now: Moment| r@ == #[trigger] restored(*config, log_view(existing), now),
    {
        let now = crate::store::clock::Clock::new().moment();
        Self::with_aof_at(config, existing, now)
    }

    /// Dispatches the command that `value` holds, at `now`.
    pub fn dispatch_at(&mut self, value: RespValue, now: Moment) -> (reply: RespValue)
        ensures
            dispatches(old(self)@, value@, now, final(self)@, reply@),
    {
        run(&self.registry, &mut self.context, &value, now)
    }

    /// Dispatches the command that `value` holds, at the instant the store's
    /// clock shows.
    pub fn dispatch(&mut self, value: RespValue) -> (reply: RespValue)
        ensures
            exists|now: Moment| dispatches(old(self)@, value@, now, final(self)@, reply@),
    {
        let now = self.context.store.clock().moment();
        self.dispatch_at(value, now)
    }

    /// The context.
    pub fn context(&self) -> (r: &CommandContext)
        ensures
            r@ == self@,
    {
        &self.context
    }

    /// The context, for changing in place.
    pub fn context_mut(&mut self) -> (r: &mut CommandContext)
        ensures
            r@ == old(self)@,
            final(self)@ == final(r)@,
    {
        &mut self.context
    }
}

/// Dispatches the command that `value` holds on `context`, at `now`.
pub fn run(
    registry: &CommandRegistry,
    context: &mut CommandContext,
    value: &RespValue,
    now: Moment,
) -> (reply: RespValue)
    ensures
        dispatches(old(context)@, value@, now, final(context)@, reply@),
{
    let parts = match value.as_array() {
        Some(parts) => parts,
        None => {
            return RespValue::error("ERR expected array");
        },
    };
    if parts.len() == 0 {
        return RespValue::error("ERR empty command array");
    }
    let name = match parts[0].as_bulk_string() {
        Some(bytes) => match str_from_utf8(bytes.as_slice()) {
            Some(s) => {
                proof {
                    vstd::utf8::encode_utf8_decode_utf8(s@);
                }
                s
            },
            None => {
                return RespValue::error("ERR invalid command name encoding");
            },
        },
        None => {
            return RespValue::error("ERR command name must be a bulk string");
        },
    };
    let command = match registry.get(name) {
        Some(command) => command,
        None => {
            return RespValue::Error(concat3("ERR unknown command '", name, "'"));
        },
    };
    let args = slice_subrange(parts.as_slice(), 1, parts.len());
    assert(frames(args@) =~= frames(parts@).skip(1));
    if args.len() < command.min_args() {
        return wrong_args_reply(name);
    }
    match command.max_args() {
        Some(most) => {
            if args.len() > most {
                return wrong_args_reply(name);
            }
        },
        None => {},
    }
    command.execute_at(context, args, now)
}

impl Default for Dispatcher {
    fn default() -> (r: Self)
        ensures
            r@ == (ContextView {
                store: Map::empty(),
                aof: None,
                os: "unknown"@,
                arch: "unknown"@,
            }),
    {
        Self::new()
    }
}

} // verus!
