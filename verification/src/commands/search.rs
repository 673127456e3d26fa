//! KEYS, and the patterns it understands.

use vstd::prelude::*;
use vstd::slice::slice_subrange;
use vstd::utf8::encode_utf8;
use vstd::utf8::valid_utf8;
use crate::commands::context::CommandContext;
use crate::commands::context::ContextView;
use crate::commands::err;
use crate::commands::err_reply;
use crate::commands::extract_bulk_string;
use crate::commands::hash::bulk_frames;
use crate::commands::hash::lists_members;
use crate::commands::not_bulk;
use crate::commands::wrong_args;
use crate::commands::wrong_args_reply;
use crate::commands::Command;
use crate::octets::bytes_eq;
use crate::octets::contains;
use crate::octets::copy_bytes;
use crate::octets::ends_with;
use crate::octets::has_infix;
use crate::octets::has_prefix;
use crate::octets::has_suffix;
use crate::octets::starts_with;
use crate::protocol::text::is_utf8;
use crate::protocol::types::frames;
use crate::protocol::types::Frame;
use crate::protocol::types::RespValue;
use crate::store::bytemap::enumerates;
use crate::store::clock::Moment;
use crate::store::memory::keys_view;
use crate::store::memory::live;
use crate::store::memory::live_keys;
use crate::store::memory::StoreView;

verus! {

/// Whether `key` matches `pattern`.
///
/// A pattern is `*` (everything), `*text*` (keys that hold the text),
/// `*text` (keys that end with it), `text*` (keys that begin with it), or a
/// text without a star at either end (that key alone). Keys are byte
/// strings, and are matched byte by byte.
pub open spec fn pattern_matches(key: Seq<u8>, pattern: Seq<u8>) -> bool {
    let n = pattern.len() as int;
    let front = n > 0 && pattern[0] == 42;
    let back = n > 0 && pattern[n - 1] == 42;
    if n == 1 && front {
        true
    } else if front && back {
        has_infix(key, pattern.subrange(1, n - 1))
    } else if front {
        has_suffix(key, pattern.subrange(1, n))
    } else if back {
        has_prefix(key, pattern.subrange(0, n - 1))
    } else {
        key == pattern
    }
}

/// Tests whether `key` matches the pattern with the bytes `pattern`.
pub fn matches_bytes(key: &[u8], pattern: &[u8]) -> (r: bool)
    ensures
        r == pattern_matches(key@, pattern@),
{
    let n = pattern.len();
    let front = n > 0 && pattern[0] == 42;
    let back = n > 0 && pattern[n - 1] == 42;
    if n == 1 && front {
        true
    } else if front && back {
        contains(key, slice_subrange(pattern, 1, n - 1))
    } else if front {
        ends_with(key, slice_subrange(pattern, 1, n))
    } else if back {
        starts_with(key, slice_subrange(pattern, 0, n - 1))
    } else {
        bytes_eq(key, pattern)
    }
}

/// Tests whether `key` matches `pattern`.
pub fn matches_pattern(key: &[u8], pattern: &str) -> (r: bool)
    ensures
        r == pattern_matches(key@, encode_utf8(pattern@)),
{
    matches_bytes(key, pattern.as_bytes())
}

/// The keys of `m` that have not expired at `now` and match `pattern`.
pub open spec fn matching_keys(m: StoreView, pattern: Seq<u8>, now: u64) -> Set<Seq<u8>> {
    Set::new(|key: Seq<u8>| live(m, key, now) && pattern_matches(key, pattern))
}

/// `KEYS pattern`: the keys that match the pattern.
pub struct KeysCommand;

impl Command for KeysCommand {
    open spec fn label(&self) -> Seq<char> {
        "KEYS"@
    }

    open spec fn least_args(&self) -> nat {
        1
    }

    open spec fn most_args(&self) -> Option<nat> {
        Some(1)
    }

    open spec fn accepts(
        &self,
        pre: ContextView,
        args: Seq<Frame>,
        now: Moment,
        post: ContextView,
        reply: Frame,
    ) -> bool {
        &&& post == pre
        &&& if args.len() == 0 {
            reply == wrong_args("KEYS"@)
        } else if !(args[0] is BulkString) {
            reply == not_bulk()
        } else if !valid_utf8(args[0]->BulkString_0) {
            reply == err("invalid pattern encoding"@)
        } else {
            lists_members(reply, matching_keys(pre.store, args[0]->BulkString_0, now.monotonic))
        }
    }

    fn execute_at(&self, ctx: &mut CommandContext, args: &[RespValue], now: Moment) -> (reply:
        RespValue) {
        if args.len() == 0 {
            return wrong_args_reply("KEYS");
        }
        let pattern = match extract_bulk_string(&args[0]) {
            Ok(p) => p,
            Err(e) => {
                return err_reply(e);
            },
        };
        if !is_utf8(pattern.as_slice()) {
            return err_reply("invalid pattern encoding");
        }
        let all_keys = ctx.store.keys_at(now.monotonic);
        let ghost all = keys_view(all_keys@);
        let ghost m = ctx.store@;
        let ghost t = now.monotonic;
        let ghost wanted = matching_keys(m, pattern@, t);
        let ghost mut order: Seq<Seq<u8>> = Seq::empty();
        let mut result: Vec<RespValue> = Vec::new();
        let mut i: usize = 0;
        assert(frames(result@) =~= bulk_frames(order));
        while i < all_keys.len()
            invariant
                i <= all_keys@.len(),
                all == keys_view(all_keys@),
                enumerates(all, live_keys(m, t)),
                wanted == matching_keys(m, pattern@, t),
                frames(result@) == bulk_frames(order),
                order.no_duplicates(),
                forall|k: Seq<u8>|
                    order.contains(k) <==> (all.take(i as int).contains(k) && pattern_matches(
                        k,
                        pattern@,
                    )),
            decreases all_keys@.len() - i,
        {
            let key = &all_keys[i];
            let ghost before = order;
            let ghost seen = all.take(i as int);
            proof {
                assert(all.take(i + 1) =~= seen.push(key@));
                assert(!seen.contains(key@)) by {
                    if seen.contains(key@) {
                        let j = seen.index_of(key@);
                        assert(all[j] == all[i as int]);
                    }
                }
                assert forall|k: Seq<u8>| all.take(i + 1).contains(k) <==> (seen.contains(k) || k
                    == key@) by {
                    if all.take(i + 1).contains(k) {
                        let j = all.take(i + 1).index_of(k);
                        if j < i {
                            assert(seen[j] == k);
                        }
                    }
                    if seen.contains(k) {
                        let j = seen.index_of(k);
                        assert(all.take(i + 1)[j] == k);
                    }
                    if k == key@ {
                        assert(all.take(i + 1)[i as int] == k);
                    }
                }
            }
            if matches_bytes(key.as_slice(), pattern.as_slice()) {
                let ghost shown = frames(result@);
                let item = RespValue::BulkString(copy_bytes(key.as_slice()));
                result.push(item);
                proof {
                    order = before.push(key@);
                    assert(frames(result@) =~= shown.push(item@));
                    assert(frames(result@) =~= bulk_frames(order));
                    assert forall|k: Seq<u8>| order.contains(k) <==> (before.contains(k) || k
                        == key@) by {
                        if order.contains(k) {
                            let j = order.index_of(k);
                            if j < before.len() {
                                assert(before[j] == k);
                            }
                        }
                        if before.contains(k) {
                            let j = before.index_of(k);
                            assert(order[j] == k);
                        }
                        if k == key@ {
                            assert(order[before.len() as int] == k);
                        }
                    }
                    assert(order.no_duplicates()) by {
                        assert forall|a: int, b: int|
                            0 <= a < order.len() && 0 <= b < order.len() && a != b implies order[a]
                            != order[b] by {
                            if a < before.len() {
                                assert(before.contains(order[a]));
                            }
                            if b < before.len() {
                                assert(before.contains(order[b]));
                            }
                        }
                    }
                }
            }
            i += 1;
        }
        proof {
            assert(all.take(i as int) =~= all);
            assert forall|k: Seq<u8>| order.to_set().contains(k) <==> wanted.contains(k) by {
                assert(all.to_set().contains(k) <==> live_keys(m, t).contains(k));
            }
            assert(order.to_set() =~= wanted);
        }
        RespValue::array(result)
    }

    fn name(&self) -> (r: &'static str) {
        "KEYS"
    }

    fn min_args(&self) -> (r: usize) {
        1
    }

    fn max_args(&self) -> (r: Option<usize>) {
        Some(1)
    }
}

} // verus!
