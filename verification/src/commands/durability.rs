//! Durability over a run of commands: the log that SET, HSET, HDEL and DEL
//! write, read back and replayed into the store the run began with, gives
//! the store that the run left.

use vstd::prelude::*;
use crate::aof::entry::fits_format;
use crate::aof::entry::AofEntryView;
use crate::aof::entry::AofOperation;
use crate::aof::laws::log_bytes;
use crate::aof::reader::decode_all;
use crate::aof::replay::replay_all;
use crate::aof::replay::replay_one;
use crate::commands::all_bulk;
use crate::commands::bulks;
use crate::commands::context::ContextView;
use crate::commands::hash::drop_all;
use crate::commands::hash::drop_records;
use crate::commands::hash::dropped;
use crate::commands::hash::put_records;
use crate::commands::hash::with_hash;
use crate::commands::key::delete_all;
use crate::commands::key::delete_records;
use crate::commands::laws::lemma_deletes_replay;
use crate::commands::laws::lemma_log_bytes_push;
use crate::commands::laws::lemma_pairs_replay;
use crate::commands::laws::lemma_pending;
use crate::commands::record;
use crate::commands::registry::AnyCommand;
use crate::commands::Command;
use crate::protocol::types::Frame;
use crate::store::clock::Moment;
use crate::store::memory::live;
use crate::store::memory::StoreView;
use crate::store::value::ValueView;

verus! {

/// Whether no entry of `m` has an expiry.
pub open spec fn no_expiry(m: StoreView) -> bool {
    forall|k: Seq<u8>| m.contains_key(k) ==> (#[trigger] m[k]).expire_at is None
}

/// Whether `op` is one of the operations that SET, HSET, HDEL and DEL log.
pub open spec fn plain_op(op: AofOperation) -> bool {
    op == AofOperation::SetKey || op == AofOperation::Del || op == AofOperation::HSet || op
        == AofOperation::HDel
}

/// Whether every entry of `entries` is one that SET, HSET, HDEL or DEL logs.
pub open spec fn plain(entries: Seq<AofEntryView>) -> bool {
    forall|i: int| 0 <= i < entries.len() ==> plain_op((#[trigger] entries[i]).op)
}

/// Whether `command` is SET, HSET, HDEL or DEL.
pub open spec fn keeps(command: AnyCommand) -> bool {
    command == AnyCommand::SetValue || command == AnyCommand::HSet || command == AnyCommand::HDel
        || command == AnyCommand::Del
}

/// One command of a run: which command, its arguments, the instant it ran
/// at, and its reply.
pub ghost struct Step {
    pub command: AnyCommand,
    pub args: Seq<Frame>,
    pub now: Moment,
    pub reply: Frame,
}

/// The entries that the command of `step` logs when it runs on `pre`:
/// none where the command answers with an error.
pub open spec fn step_records(pre: ContextView, step: Step) -> Seq<AofEntryView> {
    let args = step.args;
    let now = step.now;
    let key = args[0]->BulkString_0;
    match step.command {
        AnyCommand::SetValue => if args.len() >= 2 && args[0] is BulkString
            && args[1] is BulkString {
            seq![record(AofOperation::SetKey, key, seq![args[1]->BulkString_0], now)]
        } else {
            Seq::empty()
        },
        AnyCommand::HSet => if args.len() >= 3 && (args.len() - 1) % 2 == 0 && all_bulk(args, 0)
            && (live(pre.store, key, now.monotonic) ==> pre.store[key].value is Hash) {
            put_records(key, bulks(args, 1), now)
        } else {
            Seq::empty()
        },
        AnyCommand::HDel => if args.len() >= 2 && all_bulk(args, 0) && live(
            pre.store,
            key,
            now.monotonic,
        ) && pre.store[key].value is Hash {
            drop_records(key, dropped(pre.store[key].value->Hash_0, bulks(args, 1)), now)
        } else {
            Seq::empty()
        },
        AnyCommand::Del => if args.len() >= 1 && all_bulk(args, 0) {
            delete_records(delete_all(pre.store, bulks(args, 0), now.monotonic).1, now)
        } else {
            Seq::empty()
        },
        _ => Seq::empty(),
    }
}

/// Whether `contexts` and `steps` are a run of SET, HSET, HDEL and DEL
/// commands: step `i` takes the context `contexts[i]` to `contexts[i + 1]`
/// as its command's contract says.
pub open spec fn is_run(contexts: Seq<ContextView>, steps: Seq<Step>) -> bool {
    &&& contexts.len() == steps.len() + 1
    &&& forall|i: int|
        0 <= i < steps.len() ==> keeps((#[trigger] steps[i]).command) && steps[i].command.accepts(
            contexts[i],
            steps[i].args,
            steps[i].now,
            contexts[i + 1],
            steps[i].reply,
        )
}

/// The entries that the first `n` steps of a run log, in order.
pub open spec fn run_records(contexts: Seq<ContextView>, steps: Seq<Step>, n: nat) -> Seq<
    AofEntryView,
>
    decreases n,
{
    if n == 0 || n > steps.len() {
        Seq::empty()
    } else {
        run_records(contexts, steps, (n - 1) as nat) + step_records(contexts[n - 1], steps[n - 1])
    }
}

/// Without expiries, replaying an entry of SET, HSET, HDEL or DEL gives the
/// same at every instant, and leaves a store without expiries.
pub proof fn lemma_replay_one_timeless(m: StoreView, e: AofEntryView, t1: u64, t2: u64)
    requires
        no_expiry(m),
        plain_op(e.op),
    ensures
        replay_one(m, e, t1) == replay_one(m, e, t2),
        no_expiry(replay_one(m, e, t1).0),
{
    if m.contains_key(e.key) {
        assert(m[e.key].expire_at is None);
    }
    let after = replay_one(m, e, t1).0;
    assert forall|k: Seq<u8>| after.contains_key(k) implies (#[trigger] after[k]).expire_at is None by {
        if k != e.key {
            assert(m.contains_key(k));
            assert(after[k] == m[k]);
        }
    }
}

/// Without expiries, replaying entries of SET, HSET, HDEL and DEL gives the
/// same at every instant, and leaves a store without expiries.
pub proof fn lemma_replay_timeless(m: StoreView, entries: Seq<AofEntryView>, t1: u64, t2: u64)
    requires
        no_expiry(m),
        plain(entries),
    ensures
        replay_all(m, entries, t1) == replay_all(m, entries, t2),
        no_expiry(replay_all(m, entries, t1).0),
    decreases entries.len(),
{
    if entries.len() > 0 {
        let head = entries.drop_last();
        assert forall|i: int| 0 <= i < head.len() implies plain_op((#[trigger] head[i]).op) by {
            assert(head[i] == entries[i]);
        }
        lemma_replay_timeless(m, head, t1, t2);
        assert(plain_op(entries[entries.len() - 1].op));
        lemma_replay_one_timeless(replay_all(m, head, t1).0, entries.last(), t1, t2);
    }
}

/// Replaying entries after entries is replaying the first, then the rest
/// into what the first gave.
pub proof fn lemma_replay_concat(
    m: StoreView,
    first: Seq<AofEntryView>,
    rest: Seq<AofEntryView>,
    t: u64,
)
    ensures
        replay_all(m, first + rest, t) == (
            replay_all(replay_all(m, first, t).0, rest, t).0,
            replay_all(m, first, t).1 + replay_all(replay_all(m, first, t).0, rest, t).1,
        ),
    decreases rest.len(),
{
    if rest.len() == 0 {
        assert(first + rest =~= first);
    } else {
        lemma_replay_concat(m, first, rest.drop_last(), t);
        assert((first + rest).drop_last() =~= first + rest.drop_last());
        assert((first + rest).last() == rest.last());
    }
}

/// Entries after entries are on disk the bytes of the first, then those of
/// the rest.
pub proof fn lemma_log_bytes_concat(first: Seq<AofEntryView>, rest: Seq<AofEntryView>)
    ensures
        log_bytes(first + rest) == log_bytes(first) + log_bytes(rest),
    decreases rest.len(),
{
    if rest.len() == 0 {
        assert(first + rest =~= first);
        assert(log_bytes(rest) =~= Seq::<u8>::empty());
        assert(log_bytes(first) + log_bytes(rest) =~= log_bytes(first));
    } else {
        let head = rest.drop_last();
        lemma_log_bytes_concat(first, head);
        lemma_log_bytes_push(first + head, rest.last());
        lemma_log_bytes_push(head, rest.last());
        assert((first + head).push(rest.last()) =~= first + rest);
        assert(head.push(rest.last()) =~= rest);
        assert(log_bytes(first + rest) =~= log_bytes(first) + log_bytes(rest));
    }
}

/// Fields taken out of a hash replay: the entries logged for the fields
/// that were taken out, replayed in order into `m`, give `m` without those
/// fields in the hash under `key`, and every entry is applied.
pub proof fn lemma_drops_replay(
    m: StoreView,
    key: Seq<u8>,
    fields: Seq<Seq<u8>>,
    now: Moment,
)
    requires
        live(m, key, now.monotonic),
        m[key].value is Hash,
    ensures
        ({
            let h = m[key].value->Hash_0;
            replay_all(m, drop_records(key, dropped(h, fields), now), now.monotonic) == (
                with_hash(m, key, drop_all(h, fields), false),
                dropped(h, fields).len(),
            )
        }),
    decreases fields.len(),
{
    let t = now.monotonic;
    let h = m[key].value->Hash_0;
    if fields.len() == 0 {
        assert(drop_records(key, Seq::empty(), now) =~= Seq::<AofEntryView>::empty());
        assert(m[key].with_value(ValueView::Hash(h)) == m[key]);
        assert(with_hash(m, key, h, false) =~= m);
    } else {
        let head = fields.drop_last();
        let f = fields.last();
        lemma_drops_replay(m, key, head, now);
        let middle = with_hash(m, key, drop_all(h, head), false);
        assert(live(middle, key, t));
        if drop_all(h, head).contains_key(f) {
            let entry = record(AofOperation::HDel, key, seq![f], now);
            let records = drop_records(key, dropped(h, head).push(f), now);
            assert(records =~= drop_records(key, dropped(h, head), now).push(entry));
            assert(records.drop_last() =~= drop_records(key, dropped(h, head), now));
            assert(records.last() == entry);
            assert(replay_one(middle, entry, t).0 =~= with_hash(
                m,
                key,
                drop_all(h, fields),
                false,
            ));
        } else {
            assert(drop_all(h, head).remove(f) =~= drop_all(h, head));
        }
    }
}

/// The entries logged for pairs are entries of HSET.
pub proof fn lemma_put_records_plain(key: Seq<u8>, flat: Seq<Seq<u8>>, now: Moment)
    ensures
        plain(put_records(key, flat, now)),
    decreases flat.len(),
{
    if flat.len() >= 2 {
        lemma_put_records_plain(key, flat.take(flat.len() - 2), now);
    }
}

/// One step of a run replays: the entries that the step logs, replayed into
/// the store the step found, give the store the step left, and every entry
/// is applied. The step adds these entries to the log and no others.
pub proof fn lemma_step_replays(pre: ContextView, step: Step, post: ContextView)
    requires
        keeps(step.command),
        step.command.accepts(pre, step.args, step.now, post, step.reply),
        no_expiry(pre.store),
    ensures
        plain(step_records(pre, step)),
        replay_all(pre.store, step_records(pre, step), step.now.monotonic) == (
            post.store,
            step_records(pre, step).len(),
        ),
        post.aof == crate::commands::logged(pre.aof, step_records(pre, step), step.now),
{
    let args = step.args;
    let now = step.now;
    let t = now.monotonic;
    let m = pre.store;
    let key = args[0]->BulkString_0;
    let records = step_records(pre, step);
    if m.contains_key(key) {
        assert(m[key].expire_at is None);
    }
    if pre.aof is Some {
        assert(pre.aof->0.write_all(Seq::<AofEntryView>::empty(), t) == pre.aof->0);
    }
    if step.command == AnyCommand::SetValue {
        if records.len() > 0 {
            assert(records.drop_last() =~= Seq::<AofEntryView>::empty());
            assert(replay_all(m, records.drop_last(), t) == (m, 0nat));
        }
    } else if step.command == AnyCommand::HSet {
        if args.len() >= 3 && (args.len() - 1) % 2 == 0 && all_bulk(args, 0) && (live(m, key, t)
            ==> m[key].value is Hash) {
            lemma_pairs_replay(m, key, bulks(args, 1), now);
            lemma_put_records_plain(key, bulks(args, 1), now);
        }
    } else if step.command == AnyCommand::HDel {
        if args.len() >= 2 && all_bulk(args, 0) && live(m, key, t) && m[key].value is Hash {
            lemma_drops_replay(m, key, bulks(args, 1), now);
        }
    } else {
        if args.len() >= 1 && all_bulk(args, 0) {
            let keys = bulks(args, 0);
            assert forall|i: int| 0 <= i < keys.len() && m.contains_key(#[trigger] keys[i])
                implies !m[keys[i]].is_expired(t) by {
                assert(m[keys[i]].expire_at is None);
            }
            lemma_deletes_replay(m, keys, now);
        }
    }
}

/// A run replays: the entries that the first `n` steps of a run log,
/// replayed at any instant into the store the run began with, give the
/// store after those steps, and every entry is applied. The log holds these
/// entries after what it held before.
pub proof fn lemma_run_replays(contexts: Seq<ContextView>, steps: Seq<Step>, n: nat, t: u64)
    requires
        is_run(contexts, steps),
        n <= steps.len(),
        no_expiry(contexts[0].store),
        contexts[0].aof is Some,
    ensures
        no_expiry(contexts[n as int].store),
        plain(run_records(contexts, steps, n)),
        replay_all(contexts[0].store, run_records(contexts, steps, n), t) == (
            contexts[n as int].store,
            run_records(contexts, steps, n).len(),
        ),
        contexts[n as int].aof is Some,
        contexts[n as int].aof->0.pending == contexts[0].aof->0.pending + log_bytes(
            run_records(contexts, steps, n),
        ),
    decreases n,
{
    let start = contexts[0].store;
    if n == 0 {
        assert(log_bytes(Seq::<AofEntryView>::empty()) =~= Seq::<u8>::empty());
        assert(contexts[0].aof->0.pending + Seq::<u8>::empty() =~= contexts[0].aof->0.pending);
    } else {
        let i = (n - 1) as int;
        lemma_run_replays(contexts, steps, (n - 1) as nat, t);
        let before = run_records(contexts, steps, (n - 1) as nat);
        let step = steps[i];
        let pre = contexts[i];
        let post = contexts[i + 1];
        let added = step_records(pre, step);
        assert(keeps(step.command));
        lemma_step_replays(pre, step, post);
        lemma_replay_timeless(pre.store, added, step.now.monotonic, t);
        lemma_replay_concat(start, before, added, t);
        let all = run_records(contexts, steps, n);
        assert(all == before + added);
        assert forall|j: int| 0 <= j < all.len() implies plain_op((#[trigger] all[j]).op) by {
            if j < before.len() {
                assert(all[j] == before[j]);
            } else {
                assert(all[j] == added[j - before.len()]);
            }
        }
        lemma_pending(pre.aof->0, added, step.now.monotonic);
        lemma_log_bytes_concat(before, added);
        assert(post.aof->0.pending =~= contexts[0].aof->0.pending + log_bytes(all));
    }
}

/// Whether every bulk string among `args` has a length that fits 32 bits.
pub open spec fn small(args: Seq<Frame>) -> bool {
    forall|i: int|
        0 <= i < args.len() && (#[trigger] args[i]) is BulkString ==> args[i]->BulkString_0.len()
            <= u32::MAX
}

/// Whether every byte string of `items` has a length that fits 32 bits.
pub open spec fn short(items: Seq<Seq<u8>>) -> bool {
    forall|i: int| 0 <= i < items.len() ==> (#[trigger] items[i]).len() <= u32::MAX
}

/// The entries logged for pairs of short byte strings fit the format.
pub proof fn lemma_put_records_fit(key: Seq<u8>, flat: Seq<Seq<u8>>, now: Moment)
    requires
        key.len() <= u32::MAX,
        short(flat),
    ensures
        forall|i: int|
            0 <= i < put_records(key, flat, now).len() ==> fits_format(
                #[trigger] put_records(key, flat, now)[i],
            ),
    decreases flat.len(),
{
    if flat.len() >= 2 {
        let head = flat.take(flat.len() - 2);
        assert forall|i: int| 0 <= i < head.len() implies (#[trigger] head[i]).len()
            <= u32::MAX by {
            assert(head[i] == flat[i]);
        }
        lemma_put_records_fit(key, head, now);
        let entry = record(
            AofOperation::HSet,
            key,
            seq![flat[flat.len() - 2], flat[flat.len() - 1]],
            now,
        );
        assert(flat[flat.len() - 2].len() <= u32::MAX);
        assert(flat[flat.len() - 1].len() <= u32::MAX);
        assert(fits_format(entry));
        let before = put_records(key, head, now);
        let all = put_records(key, flat, now);
        assert(all == before.push(entry));
        assert forall|i: int| 0 <= i < all.len() implies fits_format(#[trigger] all[i]) by {
            if i < before.len() {
                assert(all[i] == before[i]);
            }
        }
    }
}

/// The fields that are taken out of a hash are short where the fields
/// asked for are.
pub proof fn lemma_dropped_short(h: Map<Seq<u8>, Seq<u8>>, fields: Seq<Seq<u8>>)
    requires
        short(fields),
    ensures
        short(dropped(h, fields)),
    decreases fields.len(),
{
    if fields.len() > 0 {
        let head = fields.drop_last();
        assert forall|i: int| 0 <= i < head.len() implies (#[trigger] head[i]).len()
            <= u32::MAX by {
            assert(head[i] == fields[i]);
        }
        lemma_dropped_short(h, head);
        assert(fields[fields.len() - 1].len() <= u32::MAX);
    }
}

/// The keys that are deleted are short where the keys asked for are.
pub proof fn lemma_deleted_short(m: StoreView, keys: Seq<Seq<u8>>, now: u64)
    requires
        short(keys),
    ensures
        short(delete_all(m, keys, now).1),
    decreases keys.len(),
{
    if keys.len() > 0 {
        let head = keys.drop_last();
        assert forall|i: int| 0 <= i < head.len() implies (#[trigger] head[i]).len()
            <= u32::MAX by {
            assert(head[i] == keys[i]);
        }
        lemma_deleted_short(m, head, now);
        assert(keys[keys.len() - 1].len() <= u32::MAX);
    }
}

/// The entries that a step with short arguments logs fit the format.
pub proof fn lemma_step_fits(pre: ContextView, step: Step)
    requires
        small(step.args),
    ensures
        forall|i: int|
            0 <= i < step_records(pre, step).len() ==> fits_format(
                #[trigger] step_records(pre, step)[i],
            ),
{
    let args = step.args;
    let now = step.now;
    let key = args[0]->BulkString_0;
    let records = step_records(pre, step);
    if records.len() > 0 {
        assert(args[0] is BulkString);
        assert(key.len() <= u32::MAX);
        if step.command == AnyCommand::SetValue {
            assert(args[1]->BulkString_0.len() <= u32::MAX);
        } else if step.command == AnyCommand::HSet {
            let flat = bulks(args, 1);
            assert forall|i: int| 0 <= i < flat.len() implies (#[trigger] flat[i]).len()
                <= u32::MAX by {
                assert(args[i + 1] is BulkString);
            }
            lemma_put_records_fit(key, flat, now);
        } else if step.command == AnyCommand::HDel {
            let fields = bulks(args, 1);
            assert forall|i: int| 0 <= i < fields.len() implies (#[trigger] fields[i]).len()
                <= u32::MAX by {
                assert(args[i + 1] is BulkString);
            }
            let gone = dropped(pre.store[key].value->Hash_0, fields);
            lemma_dropped_short(pre.store[key].value->Hash_0, fields);
            assert forall|i: int| 0 <= i < records.len() implies fits_format(
                #[trigger] records[i],
            ) by {
                assert(gone[i].len() <= u32::MAX);
            }
        } else if step.command == AnyCommand::Del {
            let keys = bulks(args, 0);
            assert forall|i: int| 0 <= i < keys.len() implies (#[trigger] keys[i]).len()
                <= u32::MAX by {
                assert(args[i] is BulkString);
            }
            let gone = delete_all(pre.store, keys, now.monotonic).1;
            lemma_deleted_short(pre.store, keys, now.monotonic);
            assert forall|i: int| 0 <= i < records.len() implies fits_format(
                #[trigger] records[i],
            ) by {
                assert(gone[i].len() <= u32::MAX);
            }
        }
    }
}

/// The entries that a run with short arguments logs fit the format.
pub proof fn lemma_run_fits(contexts: Seq<ContextView>, steps: Seq<Step>, n: nat)
    requires
        forall|i: int| 0 <= i < steps.len() ==> small((#[trigger] steps[i]).args),
    ensures
        forall|j: int|
            0 <= j < run_records(contexts, steps, n).len() ==> fits_format(
                #[trigger] run_records(contexts, steps, n)[j],
            ),
    decreases n,
{
    if n > 0 && n <= steps.len() {
        lemma_run_fits(contexts, steps, (n - 1) as nat);
        let before = run_records(contexts, steps, (n - 1) as nat);
        assert(small(steps[n - 1].args));
        lemma_step_fits(contexts[n - 1], steps[n - 1]);
        let added = step_records(contexts[n - 1], steps[n - 1]);
        let all = run_records(contexts, steps, n);
        assert forall|j: int| 0 <= j < all.len() implies fits_format(#[trigger] all[j]) by {
            if j < before.len() {
                assert(all[j] == before[j]);
            } else {
                assert(all[j] == added[j - before.len()]);
            }
        }
    }
}

/// Durability. Let a run of SET, HSET, HDEL and DEL commands begin with a
/// store without expiries and an empty log, and let the byte strings among
/// its arguments have lengths that fit 32 bits. Then the log, read back,
/// holds exactly the entries that the run logged, and replaying them at any
/// instant into the store the run began with applies every one and gives
/// the store that the run left.
pub proof fn lemma_durability(contexts: Seq<ContextView>, steps: Seq<Step>, t: u64)
    requires
        is_run(contexts, steps),
        no_expiry(contexts[0].store),
        contexts[0].aof is Some,
        contexts[0].aof->0.pending.len() == 0,
        forall|i: int| 0 <= i < steps.len() ==> small((#[trigger] steps[i]).args),
    ensures
        ({
            let last = contexts[steps.len() as int];
            let entries = decode_all(last.aof->0.pending);
            &&& last.aof is Some
            &&& entries == run_records(contexts, steps, steps.len())
            &&& replay_all(contexts[0].store, entries, t) == (last.store, entries.len())
        }),
{
    let records = run_records(contexts, steps, steps.len());
    lemma_run_replays(contexts, steps, steps.len(), t);
    lemma_run_fits(contexts, steps, steps.len());
    crate::aof::laws::lemma_log_round_trip(records);
    assert(contexts[0].aof->0.pending + log_bytes(records) =~= log_bytes(records));
}

} // verus!
