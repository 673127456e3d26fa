//! The store of one shard: a map from key to entry with lazy expiry.

use vstd::prelude::*;
use crate::store::bytemap::enumerates;
use crate::store::bytemap::ByteMap;
use crate::store::clock::Clock;
use crate::store::entry::Entry;
use crate::store::entry::EntryView;
use crate::store::value::clamp_usize;
use crate::store::value::Value;

verus! {

/// What a store stands for: its entries by key.
pub type StoreView = Map<Seq<u8>, EntryView>;

/// Whether `key` is present in `m` and has not expired at `now`.
pub open spec fn live(m: StoreView, key: Seq<u8>, now: u64) -> bool {
    m.contains_key(key) && !m[key].is_expired(now)
}

/// `m` after an access to `key` at `now`: an expired entry is dropped.
pub open spec fn evict(m: StoreView, key: Seq<u8>, now: u64) -> StoreView {
    if m.contains_key(key) && m[key].is_expired(now) {
        m.remove(key)
    } else {
        m
    }
}

/// The keys of `m` that have not expired at `now`.
pub open spec fn live_keys(m: StoreView, now: u64) -> Set<Seq<u8>> {
    Set::new(|key: Seq<u8>| live(m, key, now))
}

/// `m` without the entries that have expired at `now`.
pub open spec fn sweep(m: StoreView, now: u64) -> StoreView {
    m.restrict(live_keys(m, now))
}

/// `m` after a time to live of `seconds` is set on `key` at `now`.
pub open spec fn expire_in(m: StoreView, key: Seq<u8>, seconds: i64, now: u64) -> StoreView {
    if live(m, key, now) {
        m.insert(key, m[key].with_expiry(EntryView::deadline(seconds, now)))
    } else {
        evict(m, key, now)
    }
}

/// The time to live that `m` reports for `key` at `now`.
pub open spec fn ttl_of(m: StoreView, key: Seq<u8>, now: u64) -> i64 {
    if live(m, key, now) {
        m[key].ttl_seconds(now)
    } else {
        -2i64
    }
}

/// Once a key is reported absent at some instant, it stays absent at every
/// instant, earlier or later, for as long as the store is only read: the
/// access that met the expired entry dropped it.
pub proof fn lemma_absent_stays_absent(m: StoreView, key: Seq<u8>, now: u64, later: u64)
    requires
        !live(m, key, now),
    ensures
        !live(evict(m, key, now), key, later),
        !evict(m, key, now).contains_key(key),
        evict(evict(m, key, now), key, later) == evict(m, key, now),
{
}

/// The conventions of the time to live. A key that was just set has none
/// (-1). A time to live of `seconds`, set at `now`, reads as `seconds` at
/// that instant, as `seconds` or one less for less than a second after, and
/// as -2 once `seconds` seconds have passed.
pub proof fn lemma_ttl_conventions(
    m: StoreView,
    key: Seq<u8>,
    value: crate::store::value::ValueView,
    seconds: i64,
    now: u64,
    later: u64,
)
    requires
        seconds > 0,
        now <= later,
    ensures
        ttl_of(m.insert(key, EntryView::fresh(key, value)), key, later) == -1,
        live(m, key, now) ==> ttl_of(expire_in(m, key, seconds, now), key, now) == seconds,
        live(m, key, now) && later - now < crate::store::clock::NANOS_PER_SEC ==> seconds - 1
            <= ttl_of(expire_in(m, key, seconds, now), key, later) <= seconds,
        live(m, key, now) && later - now >= seconds * crate::store::clock::NANOS_PER_SEC ==> ttl_of(
            expire_in(m, key, seconds, now),
            key,
            later,
        ) == -2,
        !live(m, key, now) ==> ttl_of(expire_in(m, key, seconds, now), key, later) == -2,
{
    assert(crate::store::clock::NANOS_PER_SEC == 1_000_000_000);
}

/// The byte strings of `keys`.
pub open spec fn keys_view(keys: Seq<Vec<u8>>) -> Seq<Seq<u8>> {
    keys.map_values(|key: Vec<u8>| key@)
}

/// Counters of a store, taken by one pass over it.
#[derive(Debug, Clone, Copy, PartialEq, Eq)]
pub struct StoreStats {
    /// Entries present, expired ones included.
    pub total_keys: usize,
    /// Entries present that have expired.
    pub expired_keys: usize,
    /// Entries present that have not expired.
    pub active_keys: usize,
    /// Approximate bytes held by the entries that have not expired.
    pub used_memory_bytes: usize,
}

/// The store of one shard.
///
/// Expiry is lazy: an access that meets an expired entry drops it and reports
/// the key as absent. Each operation exists in two forms. The one whose name
/// ends in `_at` takes the instant it runs at; the other reads the store's
/// clock and does the same at the instant it read.
pub struct MemoryStore {
    entries: ByteMap<Entry>,
    clock: Clock,
}

impl View for MemoryStore {
    type V = StoreView;

    open spec fn view(&self) -> StoreView {
        self.held().map_values(|e: Entry| e@)
    }
}

impl MemoryStore {
    /// The entries that the store holds, by key.
    pub closed spec fn held(&self) -> Map<Seq<u8>, Entry> {
        self.entries.map()
    }

    /// The clock that the store reads its instants from.
    pub closed spec fn timer(&self) -> Clock {
        self.clock
    }

    /// The keys in the order in which the store enumerates them.
    pub closed spec fn order(&self) -> Seq<Seq<u8>> {
        self.entries.order()
    }

    /// The bytes charged for the entries among the first `n` of the
    /// enumeration that have not expired at `now`.
    pub open spec fn live_footprint(&self, now: u64, n: nat) -> nat
        decreases n,
    {
        if n == 0 || n > self.order().len() {
            0
        } else {
            let e = self.held()[self.order()[n - 1]];
            self.live_footprint(now, (n - 1) as nat) + if e@.is_expired(now) {
                0
            } else {
                e.footprint()
            }
        }
    }

    /// An empty store with the default capacity.
    pub fn new() -> (r: Self)
        ensures
            r@ == Map::<Seq<u8>, EntryView>::empty(),
    {
        Self::with_capacity(1024)
    }

    /// An empty store. The capacity is a hint and changes no result.
    pub fn with_capacity(capacity: usize) -> (r: Self)
        ensures
            r@ == Map::<Seq<u8>, EntryView>::empty(),
    {
        let r = MemoryStore { entries: ByteMap::new(), clock: Clock::new() };
        assert(r@ =~= Map::<Seq<u8>, EntryView>::empty());
        r
    }

    /// Nanoseconds on the store's clock.
    pub fn now(&self) -> u64 {
        self.clock.now()
    }

    /// The store's clock.
    pub fn clock(&self) -> (r: &Clock)
        ensures
            *r == self.timer(),
    {
        &self.clock
    }

    /// Puts a fresh entry under `key`, replacing any other; says whether the
    /// key was new.
    pub fn set(&mut self, key: Vec<u8>, value: Value) -> (is_new: bool)
        ensures
            final(self)@ == old(self)@.insert(key@, EntryView::fresh(key@, value@)),
            is_new == !old(self)@.contains_key(key@),
    {
        let map_key = crate::octets::copy_bytes(key.as_slice());
        let entry = Entry::new(key, value);
        let prev = self.entries.insert(map_key, entry);
        assert(self@ =~= old(self)@.insert(key@, EntryView::fresh(key@, value@)));
        prev.is_none()
    }

    fn drop_if_expired(&mut self, key: &[u8], now: u64) -> (is_live: bool)
        ensures
            final(self)@ == evict(old(self)@, key@, now),
            is_live == live(old(self)@, key@, now),
            is_live ==> *final(self) == *old(self),
    {
        let state: u8 = match self.entries.get(key) {
            Some(entry) => if entry.is_expired(now) {
                1
            } else {
                2
            },
            None => 0,
        };
        if state == 1 {
            let _ = self.entries.remove(key);
            assert(self@ =~= old(self)@.remove(key@));
            false
        } else {
            state == 2
        }
    }

    /// The value under `key` at `now`.
    pub fn get_at(&mut self, key: &[u8], now: u64) -> (r: Option<&Value>)
        ensures
            final(self)@ == evict(old(self)@, key@, now),
            match r {
                Some(v) => live(old(self)@, key@, now) && v@ == old(self)@[key@].value,
                None => !live(old(self)@, key@, now),
            },
    {
        if self.drop_if_expired(key, now) {
            match self.entries.get(key) {
                Some(entry) => Some(&entry.value),
                None => None,
            }
        } else {
            None
        }
    }

    /// The value under `key` at `now`, for changing in place.
    pub fn get_mut_at(&mut self, key: &[u8], now: u64) -> (r: Option<&mut Value>)
        ensures
            match r {
                Some(v) => live(old(self)@, key@, now) && v@ == old(self)@[key@].value && final(self)@ == old(self)@.insert(key@, old(self)@[key@].with_value(final(v)@)),
                None => !live(old(self)@, key@, now) && final(self)@ == evict(
                    old(self)@,
                    key@,
                    now,
                ),
            },
    {
        if self.drop_if_expired(key, now) {
            proof {
                let pre = *self;
                assert forall|post: Self, e: Entry|
                    #![trigger post.entries.map(), pre.entries.map().insert(key@, e)]
                    post.entries.map() == pre.entries.map().insert(key@, e)
                        && e.key == pre.entries.map()[key@].key && e.expire_at
                        == pre.entries.map()[key@].expire_at && e.version
                        == pre.entries.map()[key@].version implies post@ == pre@.insert(
                    key@,
                    pre@[key@].with_value(e.value@),
                ) by {
                    assert(post@ =~= pre@.insert(key@, pre@[key@].with_value(e.value@)));
                }
            }
            match self.entries.get_mut(key) {
                Some(entry) => Some(&mut entry.value),
                None => None,
            }
        } else {
            None
        }
    }

    /// Removes `key`; says whether an entry that had not expired at `now` was
    /// there.
    pub fn delete_at(&mut self, key: &[u8], now: u64) -> (r: bool)
        ensures
            final(self)@ == old(self)@.remove(key@),
            r == live(old(self)@, key@, now),
    {
        let prev = self.entries.remove(key);
        assert(self@ =~= old(self)@.remove(key@));
        match prev {
            Some(entry) => !entry.is_expired(now),
            None => false,
        }
    }

    /// Whether `key` is present at `now`.
    pub fn exists_at(&mut self, key: &[u8], now: u64) -> (r: bool)
        ensures
            final(self)@ == evict(old(self)@, key@, now),
            r == live(old(self)@, key@, now),
    {
        self.drop_if_expired(key, now)
    }

    /// Sets the expiry of `key` to `ttl_seconds` after `now`, or clears it
    /// where `ttl_seconds` is not positive; false where the key is absent.
    pub fn expire_at(&mut self, key: &[u8], ttl_seconds: i64, now: u64) -> (r: bool)
        ensures
            final(self)@ == expire_in(old(self)@, key@, ttl_seconds, now),
            r == live(old(self)@, key@, now),
    {
        if self.drop_if_expired(key, now) {
            match self.entries.get_mut(key) {
                Some(entry) => {
                    entry.set_expiration(ttl_seconds, now);
                },
                None => {},
            }
            assert(self@ =~= expire_in(old(self)@, key@, ttl_seconds, now));
            true
        } else {
            false
        }
    }

    /// The time to live of `key` at `now` in seconds: -1 without expiry, -2
    /// where the key is absent.
    pub fn ttl_at(&mut self, key: &[u8], now: u64) -> (r: i64)
        ensures
            final(self)@ == evict(old(self)@, key@, now),
            r == ttl_of(old(self)@, key@, now),
    {
        if self.drop_if_expired(key, now) {
            match self.entries.get(key) {
                Some(entry) => entry.ttl_seconds(now),
                None => -2,
            }
        } else {
            -2
        }
    }

    /// The entry under `key`, expired or not.
    pub fn get_entry(&self, key: &[u8]) -> (r: Option<&Entry>)
        ensures
            match r {
                Some(e) => self@.contains_key(key@) && e@ == self@[key@],
                None => !self@.contains_key(key@),
            },
    {
        self.entries.get(key)
    }

    /// The entry under `key`, expired or not, for changing in place.
    pub fn get_entry_mut(&mut self, key: &[u8]) -> (r: Option<&mut Entry>)
        ensures
            match r {
                Some(e) => old(self)@.contains_key(key@) && e@ == old(self)@[key@] && final(self)@ == old(self)@.insert(key@, final(e)@),
                None => !old(self)@.contains_key(key@) && final(self)@ == old(self)@,
            },
    {
        proof {
            let pre = *self;
            assert forall|post: Self, e: Entry|
                #![trigger post.entries.map(), pre.entries.map().insert(key@, e)]
                post.entries.map() == pre.entries.map().insert(key@, e) implies post@
                == pre@.insert(key@, e@) by {
                assert(post@ =~= pre@.insert(key@, e@));
            }
        }
        self.entries.get_mut(key)
    }

    /// Drops every entry.
    pub fn clear(&mut self)
        ensures
            final(self)@ == Map::<Seq<u8>, EntryView>::empty(),
    {
        self.entries.clear();
        assert(self@ =~= Map::<Seq<u8>, EntryView>::empty());
    }

    /// The number of entries present.
    pub fn len(&self) -> (n: usize)
        ensures
            n == self@.len(),
            self@.dom().finite(),
            enumerates(self.order(), self@.dom()),
    {
        let n = self.entries.len();
        assert(self@.dom() =~= self.entries.map().dom());
        n
    }

    /// Whether no entry is present.
    pub fn is_empty(&self) -> (r: bool)
        ensures
            r == (self@.len() == 0),
    {
        self.len() == 0
    }

    /// The keys that have expired at `now`, or those that have not: each
    /// once.
    fn select_keys(&self, now: u64, expired: bool) -> (r: Vec<Vec<u8>>)
        ensures
            enumerates(
                keys_view(r@),
                Set::new(|k: Seq<u8>| self@.contains_key(k) && self@[k].is_expired(now) == expired),
            ),
            r@.len() <= self@.len(),
            self@.dom().finite(),
    {
        let n = self.entries.len();
        let ghost order = self.entries.order();
        let ghost wanted = Set::new(
            |k: Seq<u8>| self@.contains_key(k) && self@[k].is_expired(now) == expired,
        );
        assert(self@.dom() =~= self.entries.map().dom());
        let mut out: Vec<Vec<u8>> = Vec::new();
        let mut i: usize = 0;
        while i < n
            invariant
                n == order.len(),
                order == self.entries.order(),
                enumerates(order, self@.dom()),
                wanted == Set::new(
                    |k: Seq<u8>| self@.contains_key(k) && self@[k].is_expired(now) == expired,
                ),
                i <= n,
                out@.len() <= i,
                keys_view(out@).no_duplicates(),
                forall|k: Seq<u8>|
                    #![trigger keys_view(out@).contains(k)]
                    keys_view(out@).contains(k) <==> (order.take(i as int).contains(k)
                        && wanted.contains(k)),
            decreases n - i,
        {
            let ghost before = keys_view(out@);
            let ghost seen = order.take(i as int);
            let ghost k = order[i as int];
            proof {
                assert(order.take(i + 1) =~= seen.push(k));
                assert(!seen.contains(k)) by {
                    if seen.contains(k) {
                        let j = seen.index_of(k);
                        assert(order[j] == order[i as int]);
                    }
                }
                assert forall|q: Seq<u8>| order.take(i + 1).contains(q) <==> (seen.contains(q) || q
                    == k) by {
                    if order.take(i + 1).contains(q) {
                        let j = order.take(i + 1).index_of(q);
                        if j < i {
                            assert(seen[j] == q);
                        }
                    }
                    if seen.contains(q) {
                        let j = seen.index_of(q);
                        assert(order.take(i + 1)[j] == q);
                    }
                    if q == k {
                        assert(order.take(i + 1)[i as int] == q);
                    }
                }
                assert(order.to_set().contains(k));
                assert(self@.contains_key(k));
                assert(self@[k] == self.entries.map()[k]@);
                assert(before.contains(k) <==> (seen.contains(k) && wanted.contains(k)));
                assert(!before.contains(k));
            }
            if self.entries.value_at(i).is_expired(now) == expired {
                out.push(crate::octets::copy_bytes(self.entries.key_at(i).as_slice()));
                proof {
                    let after = keys_view(out@);
                    assert(after =~= before.push(k));
                    assert(wanted.contains(k));
                    assert forall|q: Seq<u8>| after.contains(q) <==> (before.contains(q) || q
                        == k) by {
                        if after.contains(q) {
                            let j = after.index_of(q);
                            if j < before.len() {
                                assert(before[j] == q);
                            }
                        }
                        if before.contains(q) {
                            let j = before.index_of(q);
                            assert(after[j] == q);
                        }
                        if q == k {
                            assert(after[before.len() as int] == q);
                        }
                    }
                    assert(after.no_duplicates()) by {
                        assert forall|a: int, b: int|
                            0 <= a < after.len() && 0 <= b < after.len() && a != b implies after[a]
                            != after[b] by {
                            if a < before.len() {
                                assert(before.contains(after[a]));
                            }
                            if b < before.len() {
                                assert(before.contains(after[b]));
                            }
                        }
                    }
                    assert forall|q: Seq<u8>|
                        #![trigger after.contains(q)]
                        after.contains(q) <==> (order.take(i + 1).contains(q) && wanted.contains(
                            q,
                        )) by {
                        assert(before.contains(q) <==> (seen.contains(q) && wanted.contains(q)));
                    }
                }
            } else {
                proof {
                    assert(!wanted.contains(k));
                    assert forall|q: Seq<u8>|
                        #![trigger before.contains(q)]
                        before.contains(q) <==> (order.take(i + 1).contains(q) && wanted.contains(
                            q,
                        )) by {
                        assert(before.contains(q) <==> (seen.contains(q) && wanted.contains(q)));
                    }
                }
            }
            i += 1;
        }
        proof {
            assert(order.take(i as int) =~= order);
            let view = keys_view(out@);
            assert forall|q: Seq<u8>| view.to_set().contains(q) <==> wanted.contains(q) by {
                assert(order.to_set().contains(q) <==> self@.contains_key(q));
                assert(view.contains(q) <==> (order.contains(q) && wanted.contains(q)));
            }
            assert(view.to_set() =~= wanted);
        }
        out
    }

    /// The keys that have not expired at `now`, each once.
    pub fn keys_at(&self, now: u64) -> (r: Vec<Vec<u8>>)
        ensures
            enumerates(keys_view(r@), live_keys(self@, now)),
    {
        let keys = self.select_keys(now, false);
        assert(live_keys(self@, now) =~= Set::new(
            |k: Seq<u8>| self@.contains_key(k) && self@[k].is_expired(now) == false,
        ));
        keys
    }

    /// Drops every entry that has expired at `now`; returns how many.
    pub fn cleanup_expired_at(&mut self, now: u64) -> (removed: usize)
        ensures
            final(self)@ == sweep(old(self)@, now),
            removed == old(self)@.len() - final(self)@.len(),
            old(self)@.dom().finite(),
    {
        let n = self.len();
        let doomed = self.select_keys(now, true);
        let ghost pre = self@;
        proof {
            assert forall|q: Seq<u8>| keys_view(doomed@).contains(q) <==> (pre.contains_key(q)
                && !live(pre, q, now)) by {
                assert(keys_view(doomed@).to_set().contains(q) <==> (pre.contains_key(q)
                    && pre[q].is_expired(now) == true));
            }
        }
        let mut removed: usize = 0;
        while removed < doomed.len()
            invariant
                removed <= doomed@.len(),
                doomed@.len() <= n,
                n == pre.len(),
                pre.dom().finite(),
                keys_view(doomed@).no_duplicates(),
                forall|q: Seq<u8>|
                    keys_view(doomed@).contains(q) <==> (pre.contains_key(q) && !live(pre, q, now)),
                self@.dom().finite(),
                self@.len() == pre.len() - removed,
                forall|q: Seq<u8>|
                    #![trigger self@.contains_key(q)]
                    self@.contains_key(q) <==> (pre.contains_key(q) && !keys_view(doomed@).take(
                        removed as int,
                    ).contains(q)),
                forall|q: Seq<u8>| self@.contains_key(q) ==> self@[q] == pre[q],
            decreases doomed@.len() - removed,
        {
            let ghost prev = self@;
            let ghost all = keys_view(doomed@);
            let ghost q0 = all[removed as int];
            proof {
                assert(all.contains(q0));
                assert(!all.take(removed as int).contains(q0)) by {
                    if all.take(removed as int).contains(q0) {
                        let j = all.take(removed as int).index_of(q0);
                        assert(all[j] == all[removed as int]);
                    }
                }
                assert(prev.contains_key(q0));
            }
            let _ = self.entries.remove(doomed[removed].as_slice());
            proof {
                assert(self@ =~= prev.remove(q0));
                assert(all.take(removed + 1) =~= all.take(removed as int).push(q0));
                assert forall|q: Seq<u8>|
                    #![trigger self@.contains_key(q)]
                    self@.contains_key(q) <==> (pre.contains_key(q) && !all.take(
                        removed + 1,
                    ).contains(q)) by {
                    assert(prev.contains_key(q) <==> (pre.contains_key(q) && !all.take(
                        removed as int,
                    ).contains(q)));
                    if all.take(removed as int).contains(q) {
                        let j = all.take(removed as int).index_of(q);
                        assert(all.take(removed + 1)[j] == q);
                    }
                    if all.take(removed + 1).contains(q) && q != q0 {
                        let j = all.take(removed + 1).index_of(q);
                        assert(all.take(removed as int)[j] == q);
                    }
                    if q == q0 {
                        assert(all.take(removed + 1)[removed as int] == q);
                    }
                }
            }
            removed += 1;
        }
        proof {
            let all = keys_view(doomed@);
            assert(all.take(removed as int) =~= all);
            assert forall|q: Seq<u8>| self@.contains_key(q) <==> live(pre, q, now) by {
                assert(self@.contains_key(q) <==> (pre.contains_key(q) && !all.contains(q)));
            }
            assert(self@ =~= sweep(pre, now));
        }
        removed
    }

    /// Approximate bytes held by the entries that have not expired at `now`,
    /// capped at `usize::MAX`.
    pub fn memory_usage_at(&self, now: u64) -> (r: usize)
        ensures
            r == clamp_usize(self.live_footprint(now, self@.len())),
    {
        let n = self.entries.len();
        assert(self@.dom() =~= self.entries.map().dom());
        let mut sum: usize = 0;
        let mut i: usize = 0;
        while i < n
            invariant
                n == self.entries.order().len(),
                i <= n,
                sum == clamp_usize(self.live_footprint(now, i as nat)),
            decreases n - i,
        {
            let entry = self.entries.value_at(i);
            if !entry.is_expired(now) {
                sum = sum.saturating_add(entry.memory_usage());
            }
            i += 1;
        }
        sum
    }

    /// The store's counters at `now`.
    pub fn stats_at(&self, now: u64) -> (r: StoreStats)
        ensures
            r.total_keys == self@.len(),
            r.active_keys == live_keys(self@, now).len(),
            r.expired_keys == r.total_keys - r.active_keys,
            r.used_memory_bytes == clamp_usize(self.live_footprint(now, self@.len())),
            self@.dom().finite(),
    {
        let total = self.len();
        let keys = self.keys_at(now);
        proof {
            keys_view(keys@).unique_seq_to_set();
            vstd::set_lib::lemma_len_subset(live_keys(self@, now), self@.dom());
        }
        let active = keys.len();
        StoreStats {
            total_keys: total,
            expired_keys: total - active,
            active_keys: active,
            used_memory_bytes: self.memory_usage_at(now),
        }
    }

    /// `get_at` at the instant the store's clock shows.
    pub fn get(&mut self, key: &[u8]) -> (r: Option<&Value>)
        ensures
            exists|now: u64|
                final(self)@ == evict(old(self)@, key@, now) && match r {
                    Some(v) => #[trigger] live(old(self)@, key@, now) && v@
                        == old(self)@[key@].value,
                    None => !live(old(self)@, key@, now),
                },
    {
        let now = self.clock.now();
        self.get_at(key, now)
    }

    /// `get_mut_at` at the instant the store's clock shows.
    pub fn get_mut(&mut self, key: &[u8]) -> (r: Option<&mut Value>)
        ensures
            exists|now: u64|
                match r {
                    Some(v) => #[trigger] live(old(self)@, key@, now) && v@
                        == old(self)@[key@].value && final(self)@ == old(self)@.insert(
                        key@,
                        old(self)@[key@].with_value(final(v)@),
                    ),
                    None => !live(old(self)@, key@, now) && final(self)@ == evict(
                        old(self)@,
                        key@,
                        now,
                    ),
                },
    {
        let now = self.clock.now();
        self.get_mut_at(key, now)
    }

    /// `delete_at` at the instant the store's clock shows.
    pub fn delete(&mut self, key: &[u8]) -> (r: bool)
        ensures
            final(self)@ == old(self)@.remove(key@),
            exists|now: u64| r == #[trigger] live(old(self)@, key@, now),
    {
        let now = self.clock.now();
        self.delete_at(key, now)
    }

    /// `exists_at` at the instant the store's clock shows.
    pub fn exists_now(&mut self, key: &[u8]) -> (r: bool)
        ensures
            exists|now: u64|
                final(self)@ == evict(old(self)@, key@, now) && r == #[trigger] live(
                    old(self)@,
                    key@,
                    now,
                ),
    {
        let now = self.clock.now();
        self.exists_at(key, now)
    }

    /// `expire_at` at the instant the store's clock shows.
    pub fn expire(&mut self, key: &[u8], ttl_seconds: i64) -> (r: bool)
        ensures
            exists|now: u64|
                final(self)@ == expire_in(old(self)@, key@, ttl_seconds, now) && r
                    == #[trigger] live(old(self)@, key@, now),
    {
        let now = self.clock.now();
        self.expire_at(key, ttl_seconds, now)
    }

    /// `ttl_at` at the instant the store's clock shows.
    pub fn ttl(&mut self, key: &[u8]) -> (r: i64)
        ensures
            exists|now: u64|
                final(self)@ == evict(old(self)@, key@, now) && r == #[trigger] ttl_of(
                    old(self)@,
                    key@,
                    now,
                ),
    {
        let now = self.clock.now();
        self.ttl_at(key, now)
    }

    /// `keys_at` at the instant the store's clock shows.
    pub fn keys(&self) -> (r: Vec<Vec<u8>>)
        ensures
            exists|now: u64| enumerates(keys_view(r@), #[trigger] live_keys(self@, now)),
    {
        let now = self.clock.now();
        self.keys_at(now)
    }

    /// `cleanup_expired_at` at the instant the store's clock shows.
    pub fn cleanup_expired(&mut self) -> (removed: usize)
        ensures
            exists|now: u64| final(self)@ == #[trigger] sweep(old(self)@, now),
            removed == old(self)@.len() - final(self)@.len(),
    {
        let now = self.clock.now();
        self.cleanup_expired_at(now)
    }

    /// `memory_usage_at` at the instant the store's clock shows.
    pub fn memory_usage(&self) -> (r: usize)
        ensures
            exists|now: u64| r == clamp_usize(#[trigger] self.live_footprint(now, self@.len())),
    {
        let now = self.clock.now();
        self.memory_usage_at(now)
    }

    /// `stats_at` at the instant the store's clock shows.
    pub fn stats(&self) -> (r: StoreStats)
        ensures
            r.total_keys == self@.len(),
            r.expired_keys == r.total_keys - r.active_keys,
            exists|now: u64|
                r.active_keys == (#[trigger] live_keys(self@, now)).len() && r.used_memory_bytes
                    == clamp_usize(self.live_footprint(now, self@.len())),
    {
        let now = self.clock.now();
        self.stats_at(now)
    }
}

} // verus!
