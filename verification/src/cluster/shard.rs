//! One shard: a slice of the keyspace with its own store and log.
//!
//! The shard decides; whoever runs its loop acts. `handle` takes what came in
//! from an inbox and gives back what is to be sent out.

use vstd::prelude::*;
use vstd::utf8::decode_utf8;
use vstd::utf8::valid_utf8;
use crate::aof::entry::AofEntryView;
use crate::aof::reader::decode_all;
use crate::aof::reader::entries_view;
use crate::aof::reader::AofReader;
use crate::aof::replay::replay_entry_at;
use crate::aof::replay::replay_one;
use crate::aof::writer::AofWriter;
use crate::aof::writer::WriterView;
use crate::aof::SyncPolicy;
use crate::commands::context::CommandContext;
use crate::commands::context::ContextView;
use crate::commands::registry::catalogue;
use crate::commands::registry::CommandRegistry;
use crate::commands::Command;
use crate::commands::wrong_args;
use crate::commands::wrong_args_reply;
use crate::dispatch::arity_ok;
use crate::dispatch::unknown_command;
use crate::protocol::text::concat3;
use crate::protocol::text::str_from_utf8;
use crate::protocol::text::folded;
use crate::protocol::types::frames;
use crate::protocol::types::Frame;
use crate::protocol::types::RespValue;
use crate::store::clock::Moment;
use crate::store::memory::live_keys;
use crate::cluster::router::route_of;
use crate::cluster::router::ShardRouter;
use crate::store::memory::StoreStats;
use crate::store::memory::StoreView;
use vstd::slice::slice_subrange;

verus! {

/// How a shard is set up.
#[derive(Debug)]
pub struct ShardConfig {
    /// The shard's number.
    pub shard_id: usize,
    /// Whether the shard keeps a log.
    pub aof_enabled: bool,
    /// The path of the log file, where a log is kept.
    pub aof_path: Option<String>,
}

/// Where a shard is in its life.
#[derive(Debug, Clone, Copy, PartialEq, Eq, Structural)]
pub enum ShardState {
    /// Made, but its loop does not run yet.
    Starting,
    /// Serving both its inboxes.
    Running,
    /// One inbox is closed; the other is still served.
    Draining,
    /// Both inboxes are closed; the loop has ended.
    Stopped,
}

/// What comes in from a shard's inboxes.
#[derive(Debug)]
pub enum ShardEvent {
    /// The shard's loop begins to run.
    Started,
    /// A command to run.
    Command(RespValue),
    /// A request for the store's counters.
    StatsRequest,
    /// One of the two inboxes is closed.
    InboxClosed,
}

/// What a shard sends out.
#[derive(Debug)]
pub enum ShardAction {
    /// Nothing.
    Nothing,
    /// The reply to a command.
    Reply(RespValue),
    /// The store's counters.
    Stats(StoreStats),
    /// The shard does not serve; the request is lost.
    Unavailable,
    /// The loop ends.
    Exit,
}

/// Whether a shard in the state `state` serves requests.
pub open spec fn serves(state: ShardState) -> bool {
    state == ShardState::Running || state == ShardState::Draining
}

/// The state after an event that is no request.
pub open spec fn next_state(state: ShardState, closed: bool) -> ShardState {
    if closed {
        match state {
            ShardState::Running => ShardState::Draining,
            ShardState::Draining => ShardState::Stopped,
            other => other,
        }
    } else {
        match state {
            ShardState::Starting => ShardState::Running,
            other => other,
        }
    }
}

/// Whether a shard that dispatches `frame` on `pre` at `now` may leave
/// `post` and answer `reply`.
///
/// A frame that is no array of a command name and its arguments is answered
/// with an error, as are a name that the catalogue does not have and a
/// number of arguments that the command does not take; the context then
/// stays as it is. Otherwise the command decides.
pub open spec fn shard_dispatches(
    pre: ContextView,
    frame: Frame,
    now: Moment,
    post: ContextView,
    reply: Frame,
) -> bool {
    match frame {
        Frame::Array(parts) => if parts.len() == 0 {
            post == pre && reply == Frame::Error("ERR invalid command format"@)
        } else {
            match parts[0] {
                Frame::BulkString(name) => if !valid_utf8(name) {
                    post == pre && reply == Frame::Error("ERR invalid command name encoding"@)
                } else {
                    let text = decode_utf8(name);
                    match catalogue(folded(text)) {
                        None => post == pre && reply == unknown_command(text),
                        Some(command) => if !arity_ok(command, (parts.len() - 1) as nat) {
                            post == pre && reply == wrong_args(text)
                        } else {
                            command.accepts(pre, parts.skip(1), now, post, reply)
                        },
                    }
                },
                _ => post == pre && reply == Frame::Error(
                    "ERR command name must be a bulk string"@,
                ),
            }
        },
        _ => post == pre && reply == Frame::Error("ERR invalid command format"@),
    }
}

/// What replaying those of `entries` that go to the shard `id`, of `shards`
/// shards, gives when they are replayed in order into `m` at `now`: the
/// store afterwards, and the number of entries that were applied. Entries
/// of other shards, and entries that cannot be applied, are passed over.
pub open spec fn replay_routed(
    m: StoreView,
    entries: Seq<AofEntryView>,
    id: usize,
    shards: usize,
    now: u64,
) -> (StoreView, nat)
    decreases entries.len(),
{
    if entries.len() == 0 {
        (m, 0)
    } else {
        let (before, applied) = replay_routed(m, entries.drop_last(), id, shards, now);
        let entry = entries.last();
        if route_of(entry.key, shards) == id {
            let (after, error) = replay_one(before, entry, now);
            (
                after,
                if error is None {
                    applied + 1
                } else {
                    applied
                },
            )
        } else {
            (before, applied)
        }
    }
}

/// Whether `action` is a reply that a shard may give to `frame`, dispatched
/// on `pre` at `now`, leaving `post`.
pub open spec fn replies(
    action: ShardAction,
    pre: ContextView,
    frame: Frame,
    now: Moment,
    post: ContextView,
) -> bool {
    match action {
        ShardAction::Reply(reply) => shard_dispatches(pre, frame, now, post, reply@),
        _ => false,
    }
}

/// Whether `stats` are the counters of the store `store` at `now`.
pub open spec fn counts(stats: StoreStats, store: StoreView, now: u64) -> bool {
    &&& stats.total_keys == store.len()
    &&& stats.active_keys == live_keys(store, now).len()
    &&& stats.expired_keys == stats.total_keys - stats.active_keys
}

/// Whether `action` hands out the counters of the store `store` at `now`.
pub open spec fn reports(action: ShardAction, store: StoreView, now: u64) -> bool {
    match action {
        ShardAction::Stats(stats) => counts(stats, store, now),
        _ => false,
    }
}

/// The log writer of a shard made as `config` says at `now`: one that
/// forces the log to disk every second, where `config` enables a log and
/// names its path.
pub open spec fn shard_writer(config: ShardConfig, now: u64) -> Option<WriterView> {
    if config.aof_enabled && config.aof_path is Some {
        Some(
            WriterView {
                policy: SyncPolicy::EverySecond,
                last_sync: now,
                pending: Seq::empty(),
                sync_due: false,
            },
        )
    } else {
        None
    }
}

/// What a shard stands for.
pub ghost struct ShardView {
    pub id: usize,
    pub state: ShardState,
    pub context: ContextView,
}

/// A shard: its number, its state, and the context its commands work on.
pub struct Shard {
    id: usize,
    state: ShardState,
    context: CommandContext,
    registry: CommandRegistry,
}

impl View for Shard {
    type V = ShardView;

    closed spec fn view(&self) -> ShardView {
        ShardView { id: self.id, state: self.state, context: self.context@ }
    }
}

impl Shard {
    /// A shard as `config` says, with an empty store, in the state
    /// `Starting`. It keeps a log where `config` enables one and names its
    /// path; the log's last forced write counts as made at `now`.
    pub fn new_at(config: &ShardConfig, now: Moment) -> (r: Self)
        ensures
            r@.id == config.shard_id,
            r@.state == ShardState::Starting,
            r@.context.store == Map::<Seq<u8>, crate::store::entry::EntryView>::empty(),
            r@.context.aof == shard_writer(*config, now.monotonic),
    {
        let mut context = CommandContext::new();
        if config.aof_enabled && config.aof_path.is_some() {
            context.set_aof_writer(AofWriter::new(SyncPolicy::EverySecond, now.monotonic));
        }
        Shard {
            id: config.shard_id,
            state: ShardState::Starting,
            context,
            registry: CommandRegistry::new(),
        }
    }

    /// `new_at` at the instant a new clock shows.
    pub fn new(config: &ShardConfig) -> (r: Self)
        ensures
            r@.id == config.shard_id,
            r@.state == ShardState::Starting,
            r@.context.store == Map::<Seq<u8>, crate::store::entry::EntryView>::empty(),
            exists|now: u64| r@.context.aof == #[trigger] shard_writer(*config, now),
    {
        let now = crate::store::clock::Clock::new().moment();
        Self::new_at(config, now)
    }

    /// Replays into the shard's store, at `now`, the entries of the log
    /// `log` that `router` sends to this shard; returns how many were
    /// applied. Nothing of it is logged again.
    pub fn replay_log_at(&mut self, log: Vec<u8>, router: &ShardRouter, now: Moment) -> (applied:
        usize)
        ensures
            final(self)@ == (ShardView {
                context: old(self)@.context.with_store(
                    replay_routed(
                        old(self)@.context.store,
                        decode_all(log@),
                        old(self)@.id,
                        router.shards(),
                        now.monotonic,
                    ).0,
                ),
                ..old(self)@
            }),
            applied == replay_routed(
                old(self)@.context.store,
                decode_all(log@),
                old(self)@.id,
                router.shards(),
                now.monotonic,
            ).1,
    {
        let reader = AofReader::from_data(log);
        let entries = reader.parse_entries();
        let ghost all = entries_view(entries@);
        let ghost m = self.context.store@;
        let mut applied: usize = 0;
        let mut i: usize = 0;
        while i < entries.len()
            invariant
                i <= entries@.len(),
                applied <= i,
                all == entries_view(entries@),
                self.id == old(self).id,
                self.state == old(self).state,
                self.context@ == old(self).context@.with_store(self.context.store@),
                self.context.store@ == replay_routed(
                    m,
                    all.take(i as int),
                    self.id,
                    router.shards(),
                    now.monotonic,
                ).0,
                applied == replay_routed(
                    m,
                    all.take(i as int),
                    self.id,
                    router.shards(),
                    now.monotonic,
                ).1,
            decreases entries@.len() - i,
        {
            proof {
                assert(all.take(i + 1).drop_last() =~= all.take(i as int));
                assert(all.take(i + 1).last() == entries@[i as int]@);
            }
            if router.route_key(entries[i].key.as_slice()) == self.id {
                match replay_entry_at(&mut self.context.store, &entries[i], now.monotonic) {
                    Ok(_) => {
                        applied = applied + 1;
                    },
                    Err(_) => {},
                }
            }
            i += 1;
        }
        proof {
            assert(all.take(i as int) =~= all);
        }
        applied
    }

    /// The shard's number.
    pub fn id(&self) -> (r: usize)
        ensures
            r == self@.id,
    {
        self.id
    }

    /// The shard's state.
    pub fn state(&self) -> (r: ShardState)
        ensures
            r == self@.state,
    {
        self.state
    }

    /// The context that the shard's commands work on.
    pub fn context(&self) -> (r: &CommandContext)
        ensures
            r@ == self@.context,
    {
        &self.context
    }

    /// The context that the shard's commands work on, for changing in place.
    pub fn context_mut(&mut self) -> (r: &mut CommandContext)
        ensures
            r@ == old(self)@.context,
            final(self)@ == (ShardView { context: final(r)@, ..old(self)@ }),
    {
        &mut self.context
    }

    /// Dispatches the command that `command` holds on `context`, at `now`.
    pub fn dispatch_command_at(
        registry: &CommandRegistry,
        context: &mut CommandContext,
        command: &RespValue,
        now: Moment,
    ) -> (reply: RespValue)
        ensures
            shard_dispatches(old(context)@, command@, now, final(context)@, reply@),
    {
        let parts = match command.as_array() {
            Some(parts) => parts,
            None => {
                return RespValue::error("ERR invalid command format");
            },
        };
        if parts.len() == 0 {
            return RespValue::error("ERR invalid command format");
        }
        let name = match parts[0].as_bulk_string() {
            Some(bytes) => match str_from_utf8(bytes.as_slice()) {
                Some(s) => {
                    proof {
                        vstd::utf8::encode_utf8_decode_utf8(s@);
                    }
                    s
                },
                None => {
                    return RespValue::error("ERR invalid command name encoding");
                },
            },
            None => {
                return RespValue::error("ERR command name must be a bulk string");
            },
        };
        let found = match registry.get(name) {
            Some(found) => found,
            None => {
                return RespValue::Error(concat3("ERR unknown command '", name, "'"));
            },
        };
        let args = slice_subrange(parts.as_slice(), 1, parts.len());
        assert(frames(args@) =~= frames(parts@).skip(1));
        if args.len() < found.min_args() {
            return wrong_args_reply(name);
        }
        match found.max_args() {
            Some(most) => {
                if args.len() > most {
                    return wrong_args_reply(name);
                }
            },
            None => {},
        }
        found.execute_at(context, args, now)
    }

    /// Dispatches the command that `command` holds on `context`, at the
    /// instant the store's clock shows.
    pub fn dispatch_command(
        registry: &CommandRegistry,
        context: &mut CommandContext,
        command: RespValue,
    ) -> (reply: RespValue)
        ensures
            exists|now: Moment|
                shard_dispatches(old(context)@, command@, now, final(context)@, reply@),
    {
        let now = context.store.clock().moment();
        Self::dispatch_command_at(registry, context, &command, now)
    }

    /// Runs one command on the shard at `now`, whatever the shard's state.
    pub fn execute_at(&mut self, command: &RespValue, now: Moment) -> (reply: RespValue)
        ensures
            final(self)@.id == old(self)@.id,
            final(self)@.state == old(self)@.state,
            shard_dispatches(old(self)@.context, command@, now, final(self)@.context, reply@),
    {
        Self::dispatch_command_at(&self.registry, &mut self.context, command, now)
    }

    /// The approximate bytes held at `now` by the entries that have not
    /// expired then.
    pub closed spec fn memory_at(&self, now: u64) -> nat {
        self.context.store.live_footprint(now, self.context.store@.len())
    }

    /// The store's counters at `now`.
    pub fn stats_at(&self, now: Moment) -> (r: StoreStats)
        ensures
            counts(r, self@.context.store, now.monotonic),
            r.used_memory_bytes == crate::store::value::clamp_usize(
                self.memory_at(now.monotonic),
            ),
    {
        self.context.store.stats_at(now.monotonic)
    }

    /// The store's counters at the instant the store's clock shows.
    pub fn get_stats(&self) -> (r: StoreStats)
        ensures
            exists|now: u64| #[trigger]
                counts(r, self@.context.store, now) && r.used_memory_bytes
                    == crate::store::value::clamp_usize(self.memory_at(now)),
    {
        let now = self.context.store.clock().moment();
        self.stats_at(now)
    }

    /// One step of the shard's loop at `now`: takes `event` and gives the
    /// action to perform.
    ///
    /// A request is served while the shard runs or drains, and is lost
    /// otherwise. The first closed inbox makes a running shard drain, the
    /// second stops it and ends the loop.
    pub fn handle_at(&mut self, event: ShardEvent, now: Moment) -> (action: ShardAction)
        ensures
            final(self)@.id == old(self)@.id,
            match event {
                ShardEvent::Started => final(self)@ == (ShardView {
                    state: next_state(old(self)@.state, false),
                    ..old(self)@
                }) && action is Nothing,
                ShardEvent::InboxClosed => final(self)@ == (ShardView {
                    state: next_state(old(self)@.state, true),
                    ..old(self)@
                }) && (if old(self)@.state == ShardState::Draining {
                    action is Exit
                } else {
                    action is Nothing
                }),
                ShardEvent::Command(command) => final(self)@.state == old(self)@.state && (
                if serves(old(self)@.state) {
                    replies(action, old(self)@.context, command@, now, final(self)@.context)
                } else {
                    action is Unavailable && final(self)@ == old(self)@
                }),
                ShardEvent::StatsRequest => final(self)@ == old(self)@ && (if serves(
                    old(self)@.state,
                ) {
                    reports(action, old(self)@.context.store, now.monotonic)
                } else {
                    action is Unavailable
                }),
            },
    {
        let serving = match self.state {
            ShardState::Running => true,
            ShardState::Draining => true,
            _ => false,
        };
        match event {
            ShardEvent::Started => {
                match self.state {
                    ShardState::Starting => {
                        self.state = ShardState::Running;
                    },
                    _ => {},
                }
                ShardAction::Nothing
            },
            ShardEvent::InboxClosed => {
                match self.state {
                    ShardState::Running => {
                        self.state = ShardState::Draining;
                        ShardAction::Nothing
                    },
                    ShardState::Draining => {
                        self.state = ShardState::Stopped;
                        ShardAction::Exit
                    },
                    _ => ShardAction::Nothing,
                }
            },
            ShardEvent::Command(command) => {
                if serving {
                    ShardAction::Reply(self.execute_at(&command, now))
                } else {
                    ShardAction::Unavailable
                }
            },
            ShardEvent::StatsRequest => {
                if serving {
                    ShardAction::Stats(self.stats_at(now))
                } else {
                    ShardAction::Unavailable
                }
            },
        }
    }

    /// `handle_at` at the instant the store's clock shows.
    pub fn handle(&mut self, event: ShardEvent) -> (action: ShardAction)
        ensures
            final(self)@.id == old(self)@.id,
            event is Started ==> final(self)@.state == next_state(old(self)@.state, false),
            event is InboxClosed ==> final(self)@.state == next_state(old(self)@.state, true),
            !(event is Command) ==> final(self)@.context == old(self)@.context,
            event is Command && !serves(old(self)@.state) ==> final(self)@ == old(self)@
                && action is Unavailable,
            event is StatsRequest ==> (if serves(old(self)@.state) {
                exists|now: u64| #[trigger] reports(action, old(self)@.context.store, now)
            } else {
                action is Unavailable
            }),
            event is Started ==> action is Nothing,
            event is InboxClosed ==> (action is Exit <==> old(self)@.state
                == ShardState::Draining),
            (event is Command || event is StatsRequest) ==> final(self)@.state == old(
                self,
            )@.state,
            event matches ShardEvent::Command(command) ==> (serves(old(self)@.state) ==> exists|
                now: Moment,
            |
                replies(action, old(self)@.context, command@, now, final(self)@.context)),
    {
        let now = self.context.store.clock().moment();
        self.handle_at(event, now)
    }
}

} // verus!
