//! The cluster: the shards of one node, and the routing of commands to
//! them.

use vstd::prelude::*;
use vstd::string::StringExecFns;
use vstd::utf8::decode_utf8;
use vstd::utf8::valid_utf8;
use crate::commands::admin::str_eq;
use crate::protocol::text::push_u64;
use crate::protocol::text::str_from_utf8;
use crate::protocol::text::str_to_uppercase;
use crate::protocol::text::decimal_text;
use crate::protocol::text::folded;
use crate::protocol::types::Frame;
use crate::protocol::types::RespValue;
use crate::store::clock::Moment;
use crate::store::value::clamp_usize;

pub mod router;
pub mod shard;

pub use router::ShardRouter;
pub use shard::Shard;
pub use shard::ShardAction;
pub use shard::ShardConfig;
pub use shard::ShardEvent;
pub use shard::ShardState;

use router::route_of;
use shard::shard_dispatches;
use shard::ShardView;

verus! {

/// Counters of a cluster.
#[derive(Debug, Clone, Copy, PartialEq, Eq)]
pub struct ClusterStats {
    /// The number of shards.
    pub num_shards: usize,
    /// Keys that have not expired, over all shards.
    pub total_keys: usize,
    /// Approximate bytes held, over all shards.
    pub total_memory_bytes: usize,
}

/// Counters of one shard.
#[derive(Debug, Clone, Copy, PartialEq, Eq)]
pub struct ShardStats {
    /// The shard's number.
    pub shard_id: usize,
    /// Keys that have not expired.
    pub active_keys: usize,
    /// Keys present, expired ones included.
    pub total_keys: usize,
    /// Keys present that have expired.
    pub expired_keys: usize,
    /// Approximate bytes held.
    pub memory_bytes: usize,
}

/// Whether the command whose upper-case name is `name` goes to shard 0
/// whatever its arguments.
pub open spec fn keyless(name: Seq<char>) -> bool {
    name == "INFO"@ || name == "FLUSHDB"@ || name == "PING"@
}

/// The shard, of `shards` shards, that the command `frame` goes to: the
/// shard of its first argument, taken as the key; shard 0 where the frame
/// has no such argument or names a command without a key.
pub open spec fn target_shard(frame: Frame, shards: usize) -> usize {
    match frame {
        Frame::Array(parts) => if parts.len() < 2 {
            0
        } else {
            match (parts[0], parts[1]) {
                (Frame::BulkString(name), Frame::BulkString(key)) => if !valid_utf8(name)
                    || keyless(folded(decode_utf8(name))) {
                    0
                } else {
                    route_of(key, shards)
                },
                _ => 0,
            }
        },
        _ => 0,
    }
}

/// A command with a key goes to the shard of its key, so commands on two
/// keys that the router sends to different shards go to different shards:
/// they never meet in one store.
pub proof fn lemma_target_is_route(parts: Seq<Frame>, other: Seq<Frame>, shards: usize)
    requires
        shards > 0,
        parts.len() >= 2,
        other.len() >= 2,
        parts[0] matches Frame::BulkString(name) && valid_utf8(name) && !keyless(
            folded(decode_utf8(name)),
        ),
        other[0] matches Frame::BulkString(name) && valid_utf8(name) && !keyless(
            folded(decode_utf8(name)),
        ),
        parts[1] is BulkString,
        other[1] is BulkString,
    ensures
        target_shard(Frame::Array(parts), shards) == route_of(parts[1]->BulkString_0, shards),
        target_shard(Frame::Array(other), shards) == route_of(other[1]->BulkString_0, shards),
        route_of(parts[1]->BulkString_0, shards) != route_of(other[1]->BulkString_0, shards)
            ==> target_shard(Frame::Array(parts), shards) != target_shard(
            Frame::Array(other),
            shards,
        ),
{
}

/// The path of the log file of the shard `shard_id`.
pub open spec fn shard_log_path(shard_id: usize) -> Seq<char> {
    "ferrumdb_shard_"@ + decimal_text(shard_id as int) + ".aof"@
}

/// The path of the log file of the shard `shard_id`.
pub fn aof_path_for(shard_id: usize) -> (r: String)
    ensures
        r@ == shard_log_path(shard_id),
{
    let mut path = String::from_str("ferrumdb_shard_");
    push_u64(&mut path, shard_id as u64);
    path.append(".aof");
    path
}

/// The number of shards for a machine with `cpus` processors: one for each,
/// at least 1 and at most 16.
pub fn default_shard_count(cpus: usize) -> (r: usize)
    ensures
        1 <= r <= 16,
        r == (if cpus < 1 {
            1
        } else if cpus > 16 {
            16
        } else {
            cpus as int
        }),
{
    if cpus < 1 {
        1
    } else if cpus > 16 {
        16
    } else {
        cpus
    }
}

/// The shard that the command `command` goes to.
pub fn route_command(router: &ShardRouter, command: &RespValue) -> (r: usize)
    ensures
        r == target_shard(command@, router.shards()),
        r < router.shards(),
{
    let _ = router.num_shards();
    let parts = match command.as_array() {
        Some(parts) => parts,
        None => {
            return 0;
        },
    };
    if parts.len() < 2 {
        return 0;
    }
    let name = match &parts[0] {
        RespValue::BulkString(bytes) => match str_from_utf8(bytes.as_slice()) {
            Some(s) => {
                proof {
                    vstd::utf8::encode_utf8_decode_utf8(s@);
                }
                s
            },
            None => {
                return 0;
            },
        },
        _ => {
            return 0;
        },
    };
    let upper_name = str_to_uppercase(name);
    if is_keyless(upper_name.as_str()) {
        return 0;
    }
    match &parts[1] {
        RespValue::BulkString(key) => router.route_key(key.as_slice()),
        _ => 0,
    }
}

/// Whether the command whose upper-case name is `name` goes to shard 0
/// whatever its arguments.
pub fn is_keyless(name: &str) -> (r: bool)
    ensures
        r == keyless(name@),
{
    str_eq(name, "INFO") || str_eq(name, "FLUSHDB") || str_eq(name, "PING")
}

/// The number of keys that have not expired at `now` in the first `n` of the
/// shards `shards`.
pub open spec fn live_key_count(shards: Seq<ShardView>, now: u64, n: nat) -> nat
    decreases n,
{
    if n == 0 || n > shards.len() {
        0
    } else {
        live_key_count(shards, now, (n - 1) as nat) + crate::store::memory::live_keys(
            shards[n - 1].context.store,
            now,
        ).len()
    }
}

/// The number of keys in the first `n` of the shards `shards` that have not
/// expired, each shard taken at its own instant: shard `i` at `at[i]`.
pub open spec fn live_key_count_each(shards: Seq<ShardView>, at: Seq<u64>, n: nat) -> nat
    decreases n,
{
    if n == 0 || n > shards.len() || n > at.len() {
        0
    } else {
        live_key_count_each(shards, at, (n - 1) as nat) + crate::store::memory::live_keys(
            shards[n - 1].context.store,
            at[n - 1],
        ).len()
    }
}

/// The count over the first `n` shards looks at the first `n` instants
/// only.
pub proof fn lemma_count_each_push(shards: Seq<ShardView>, at: Seq<u64>, next: u64, n: nat)
    requires
        n <= at.len(),
    ensures
        live_key_count_each(shards, at.push(next), n) == live_key_count_each(shards, at, n),
    decreases n,
{
    if n > 0 && n <= shards.len() {
        lemma_count_each_push(shards, at, next, (n - 1) as nat);
        assert(at.push(next)[n - 1] == at[n - 1]);
    }
}

/// Whether `details` are the counters of the store `store` at `now`.
pub open spec fn details_at(
    details: ShardStats,
    store: crate::store::memory::StoreView,
    now: u64,
) -> bool {
    &&& details.total_keys == store.len()
    &&& details.active_keys == crate::store::memory::live_keys(store, now).len()
    &&& details.expired_keys == details.total_keys - details.active_keys
}

/// The shards that `shards` stand for.
pub open spec fn shards_view(shards: Seq<Shard>) -> Seq<ShardView> {
    shards.map_values(|s: Shard| s@)
}

/// The shards of one node, run one command at a time.
pub struct ClusterManager {
    shards: Vec<Shard>,
    router: ShardRouter,
}

impl View for ClusterManager {
    type V = Seq<ShardView>;

    open spec fn view(&self) -> Seq<ShardView> {
        shards_view(self.members())
    }
}

impl ClusterManager {
    #[verifier::type_invariant]
    spec fn well_formed(&self) -> bool {
        self.shards@.len() == self.router.shards()
    }

    /// A cluster of `num_shards` shards with empty stores. Shard `i` has the
    /// number `i` and, where `aof_enabled`, keeps the log that
    /// `shard_log_path(i)` names.
    pub fn new(num_shards: usize, aof_enabled: bool) -> (r: Self)
        requires
            num_shards > 0,
        ensures
            r@.len() == num_shards,
            forall|i: int|
                0 <= i < num_shards ==> (#[trigger] r@[i]).id == i && r@[i].state
                    == ShardState::Running && r@[i].context.store == Map::<
                    Seq<u8>,
                    crate::store::entry::EntryView,
                >::empty() && (r@[i].context.aof is Some <==> aof_enabled),
    {
        let mut shards: Vec<Shard> = Vec::new();
        let mut shard_id: usize = 0;
        while shard_id < num_shards
            invariant
                shard_id <= num_shards,
                shards@.len() == shard_id,
                forall|i: int|
                    0 <= i < shard_id ==> (#[trigger] shards_view(shards@)[i]).id == i
                        && shards_view(shards@)[i].state == ShardState::Running
                        && shards_view(shards@)[i].context.store == Map::<
                        Seq<u8>,
                        crate::store::entry::EntryView,
                    >::empty() && (shards_view(shards@)[i].context.aof is Some <==> aof_enabled),
            decreases num_shards - shard_id,
        {
            let config = ShardConfig {
                shard_id,
                aof_enabled,
                aof_path: if aof_enabled {
                    Some(aof_path_for(shard_id))
                } else {
                    None
                },
            };
            let mut shard = Shard::new(&config);
            let _ = shard.handle(ShardEvent::Started);
            let ghost before = shards_view(shards@);
            let ghost made = shard@;
            shards.push(shard);
            proof {
                assert(shards_view(shards@) =~= before.push(made));
                assert forall|i: int| 0 <= i < shard_id + 1 implies (#[trigger] shards_view(
                    shards@,
                )[i]).id == i && shards_view(shards@)[i].state == ShardState::Running
                    && shards_view(shards@)[i].context.store == Map::<
                    Seq<u8>,
                    crate::store::entry::EntryView,
                >::empty() && (shards_view(shards@)[i].context.aof is Some <==> aof_enabled) by {
                    if i < shard_id {
                        assert(shards_view(shards@)[i] == before[i]);
                    }
                }
            }
            shard_id += 1;
        }
        ClusterManager { shards, router: ShardRouter::new(num_shards) }
    }

    /// Runs `command` at `now` on the shard it goes to. The other shards
    /// stay as they are.
    pub fn execute_at(&mut self, command: RespValue, now: Moment) -> (reply: RespValue)
        ensures
            final(self)@.len() == old(self)@.len(),
            target_shard(command@, old(self)@.len() as usize) < old(self)@.len(),
            forall|i: int|
                0 <= i < old(self)@.len() && i != target_shard(
                    command@,
                    old(self)@.len() as usize,
                ) ==> final(self)@[i] == old(self)@[i],
            ({
                let t = target_shard(command@, old(self)@.len() as usize) as int;
                final(self)@[t].id == old(self)@[t].id && final(self)@[t].state == old(
                    self,
                )@[t].state && shard_dispatches(
                    old(self)@[t].context,
                    command@,
                    now,
                    final(self)@[t].context,
                    reply@,
                )
            }),
    {
        proof {
            use_type_invariant(&*self);
        }
        let shard_id = route_command(&self.router, &command);
        let shard = &mut self.shards[shard_id];
        shard.execute_at(&command, now)
    }

    /// Runs `command` on the shard it goes to, at the instant that shard's
    /// clock shows. The other shards stay as they are.
    pub fn execute(&mut self, command: RespValue) -> (reply: RespValue)
        ensures
            final(self)@.len() == old(self)@.len(),
            target_shard(command@, old(self)@.len() as usize) < old(self)@.len(),
            forall|i: int|
                0 <= i < old(self)@.len() && i != target_shard(
                    command@,
                    old(self)@.len() as usize,
                ) ==> final(self)@[i] == old(self)@[i],
            exists|now: Moment| #[trigger]
                shard_dispatches(
                    old(self)@[target_shard(command@, old(self)@.len() as usize) as int].context,
                    command@,
                    now,
                    final(self)@[target_shard(command@, old(self)@.len() as usize) as int].context,
                    reply@,
                ),
    {
        proof {
            use_type_invariant(&*self);
        }
        let shard_id = route_command(&self.router, &command);
        let now = self.shards[shard_id].context().store.clock().moment();
        self.execute_at(command, now)
    }

    /// The shards, in order.
    pub closed spec fn members(&self) -> Seq<Shard> {
        self.shards@
    }

    /// The approximate bytes held, at `now`, by the first `n` shards.
    pub open spec fn memory_sum(&self, now: u64, n: nat) -> nat
        decreases n,
    {
        if n == 0 || n > self.members().len() {
            0
        } else {
            self.memory_sum(now, (n - 1) as nat) + self.members()[n - 1].memory_at(now)
        }
    }

    /// The counters of the cluster at `now`: over all shards, the keys that
    /// have not expired and the approximate bytes they hold, each capped at
    /// `usize::MAX`.
    pub fn get_cluster_stats_at(&self, now: Moment) -> (r: ClusterStats)
        ensures
            r.num_shards == self@.len(),
            r.total_keys == clamp_usize(live_key_count(self@, now.monotonic, self@.len())),
            r.total_memory_bytes == clamp_usize(self.memory_sum(now.monotonic, self@.len())),
    {
        let mut total_keys: usize = 0;
        let mut total_memory: usize = 0;
        let mut i: usize = 0;
        while i < self.shards.len()
            invariant
                i <= self.shards@.len(),
                total_keys == clamp_usize(live_key_count(self@, now.monotonic, i as nat)),
                total_memory == clamp_usize(self.memory_sum(now.monotonic, i as nat)),
            decreases self.shards@.len() - i,
        {
            let stats = self.shards[i].stats_at(now);
            assert(self@[i as int] == self.shards@[i as int]@);
            total_keys = total_keys.saturating_add(stats.active_keys);
            total_memory = total_memory.saturating_add(stats.used_memory_bytes);
            i += 1;
        }
        ClusterStats {
            num_shards: self.shards.len(),
            total_keys,
            total_memory_bytes: total_memory,
        }
    }

    /// The approximate bytes held by the first `n` shards, each shard taken
    /// at its own instant: shard `i` at `at[i]`.
    pub open spec fn memory_sum_each(&self, at: Seq<u64>, n: nat) -> nat
        decreases n,
    {
        if n == 0 || n > self.members().len() || n > at.len() {
            0
        } else {
            self.memory_sum_each(at, (n - 1) as nat) + self.members()[n - 1].memory_at(
                at[n - 1],
            )
        }
    }

    /// Where every shard is taken at the same instant, the bytes held are
    /// those that `memory_sum` gives for that instant.
    pub proof fn lemma_memory_sum_same(&self, at: Seq<u64>, now: u64, n: nat)
        requires
            n <= at.len(),
            forall|i: int| 0 <= i < at.len() ==> at[i] == now,
        ensures
            self.memory_sum_each(at, n) == self.memory_sum(now, n),
        decreases n,
    {
        if n > 0 && n <= self.shards@.len() {
            self.lemma_memory_sum_same(at, now, (n - 1) as nat);
        }
    }

    proof fn lemma_memory_each_push(&self, at: Seq<u64>, next: u64, n: nat)
        requires
            n <= at.len(),
        ensures
            self.memory_sum_each(at.push(next), n) == self.memory_sum_each(at, n),
        decreases n,
    {
        if n > 0 && n <= self.shards@.len() {
            self.lemma_memory_each_push(at, next, (n - 1) as nat);
            assert(at.push(next)[n - 1] == at[n - 1]);
        }
    }

    /// The counters of the cluster: over all shards, the keys that have not
    /// expired and the approximate bytes they hold, each capped at
    /// `usize::MAX`. Every shard is taken at the instant its own clock shows.
    pub fn get_cluster_stats(&self) -> (r: ClusterStats)
        ensures
            r.num_shards == self@.len(),
            exists|at: Seq<u64>|
                at.len() == self@.len() && r.total_keys == clamp_usize(
                    #[trigger] live_key_count_each(self@, at, self@.len()),
                ) && r.total_memory_bytes == clamp_usize(self.memory_sum_each(at, self@.len())),
    {
        let mut total_keys: usize = 0;
        let mut total_memory: usize = 0;
        let ghost mut at: Seq<u64> = Seq::empty();
        let mut i: usize = 0;
        while i < self.shards.len()
            invariant
                i <= self.shards@.len(),
                at.len() == i,
                total_keys == clamp_usize(live_key_count_each(self@, at, i as nat)),
                total_memory == clamp_usize(self.memory_sum_each(at, i as nat)),
            decreases self.shards@.len() - i,
        {
            let stats = self.shards[i].get_stats();
            proof {
                assert(self@[i as int] == self.shards@[i as int]@);
                let now = choose|now: u64| #[trigger]
                    shard::counts(stats, self@[i as int].context.store, now)
                        && stats.used_memory_bytes == clamp_usize(
                        self.shards@[i as int].memory_at(now),
                    );
                lemma_count_each_push(self@, at, now, i as nat);
                self.lemma_memory_each_push(at, now, i as nat);
                at = at.push(now);
                assert(at[i as int] == now);
            }
            total_keys = total_keys.saturating_add(stats.active_keys);
            total_memory = total_memory.saturating_add(stats.used_memory_bytes);
            i += 1;
        }
        proof {
            assert(self@.len() == i);
            assert(total_keys == clamp_usize(live_key_count_each(self@, at, self@.len())));
            assert(total_memory == clamp_usize(self.memory_sum_each(at, self@.len())));
        }
        ClusterStats {
            num_shards: self.shards.len(),
            total_keys,
            total_memory_bytes: total_memory,
        }
    }

    /// The counters of each shard, in the order of the shards, each taken
    /// at the instant that shard's clock shows.
    pub fn get_shard_details(&self) -> (r: Vec<ShardStats>)
        ensures
            r@.len() == self@.len(),
            forall|i: int|
                0 <= i < r@.len() ==> (#[trigger] r@[i]).shard_id == self@[i].id && exists|
                    now: u64,
                | #[trigger] details_at(r@[i], self@[i].context.store, now),
    {
        let mut details: Vec<ShardStats> = Vec::new();
        let mut i: usize = 0;
        while i < self.shards.len()
            invariant
                i <= self.shards@.len(),
                details@.len() == i,
                forall|j: int|
                    0 <= j < i ==> (#[trigger] details@[j]).shard_id == self@[j].id && exists|
                        now: u64,
                    | #[trigger] details_at(details@[j], self@[j].context.store, now),
            decreases self.shards@.len() - i,
        {
            let stats = self.shards[i].get_stats();
            assert(self@[i as int] == self.shards@[i as int]@);
            let ghost at = choose|now: u64| #[trigger]
                shard::counts(stats, self@[i as int].context.store, now);
            let ghost before = details@;
            details.push(
                ShardStats {
                    shard_id: self.shards[i].id(),
                    active_keys: stats.active_keys,
                    total_keys: stats.total_keys,
                    expired_keys: stats.expired_keys,
                    memory_bytes: stats.used_memory_bytes,
                },
            );
            proof {
                assert(details_at(details@[i as int], self@[i as int].context.store, at));
                assert forall|j: int| 0 <= j < i + 1 implies (#[trigger] details@[j]).shard_id
                    == self@[j].id && exists|now: u64| #[trigger]
                    details_at(details@[j], self@[j].context.store, now) by {
                    if j < i {
                        assert(details@[j] == before[j]);
                    }
                }
            }
            i += 1;
        }
        details
    }

    /// The number of shards.
    pub fn num_shards(&self) -> (r: usize)
        ensures
            r == self@.len(),
    {
        self.shards.len()
    }

    /// The shard with the number `i`.
    pub fn shard(&self, i: usize) -> (r: &Shard)
        requires
            i < self@.len(),
        ensures
            r@ == self@[i as int],
    {
        &self.shards[i]
    }
}

} // verus!
