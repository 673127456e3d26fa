//! Maps and sets keyed by byte strings: hash tables under SipHash-1-3.

use vstd::prelude::*;
use crate::hashing::sip13;
use crate::hashing::sip13_digest;
use crate::octets::bytes_eq;

verus! {

/// The fewest buckets that a table with entries has.
pub const MIN_BUCKETS: usize = 8;

/// The bucket, of `buckets` buckets, that `key` belongs to.
pub open spec fn home(key: Seq<u8>, buckets: int) -> int {
    (sip13_digest(key) as int) % buckets
}

/// Whether `order` lists exactly the members of `members`, each once.
pub open spec fn enumerates<T>(order: Seq<T>, members: Set<T>) -> bool {
    order.no_duplicates() && order.to_set() == members
}

/// Whether the bucket `b` of `buckets` lists the slot `s`.
spec fn listed(buckets: Seq<Seq<usize>>, b: int, s: int) -> bool {
    exists|p: int| 0 <= p < buckets[b].len() && #[trigger] buckets[b][p] == s
}

/// Whether `buckets` index the first `n` of the keys `keys`: every slot a
/// bucket lists is below `n` and holds a key that belongs to that bucket, no
/// bucket lists a slot twice, and every slot below `n` is listed by the
/// bucket its key belongs to.
spec fn indexed_upto(keys: Seq<Seq<u8>>, buckets: Seq<Seq<usize>>, n: int) -> bool {
    let nb = buckets.len() as int;
    &&& forall|b: int, p: int|
        0 <= b < nb && 0 <= p < buckets[b].len() ==> (#[trigger] buckets[b][p]) < n && home(
            keys[buckets[b][p] as int],
            nb,
        ) == b
    &&& forall|b: int, p: int, q: int|
        0 <= b < nb && 0 <= p < q < buckets[b].len() ==> #[trigger] buckets[b][p]
            != #[trigger] buckets[b][q]
    &&& forall|s: int| 0 <= s < n ==> listed(buckets, home(#[trigger] keys[s], nb), s)
}

/// The byte strings of `keys`.
spec fn key_views(keys: Seq<Vec<u8>>) -> Seq<Seq<u8>> {
    keys.map_values(|key: Vec<u8>| key@)
}

/// The slots that `buckets` list.
spec fn bucket_views(buckets: Seq<Vec<usize>>) -> Seq<Seq<usize>> {
    buckets.map_values(|bucket: Vec<usize>| bucket@)
}

/// A finite map from byte strings to values of type `V`: a hash table.
///
/// The entries stand in slots, one after the other; `order()` is the
/// sequence of their keys and `map()` the mapping itself. Each key is listed
/// in the bucket that its SipHash-1-3 sends it to, so a key is found by
/// looking through one bucket. No key is held twice.
#[derive(Debug)]
pub struct ByteMap<V> {
    keys: Vec<Vec<u8>>,
    values: Vec<V>,
    buckets: Vec<Vec<usize>>,
}

/// The bucket, of `count` buckets, that `key` belongs to.
fn bucket_for(key: &[u8], count: usize) -> (b: usize)
    requires
        count > 0,
    ensures
        b == home(key@, count as int),
        b < count,
{
    (sip13(key) % (count as u64)) as usize
}

/// The position in `bucket` of the slot that holds `key`.
fn find_in_bucket(keys: &Vec<Vec<u8>>, bucket: &Vec<usize>, key: &[u8]) -> (r: Option<usize>)
    requires
        forall|p: int| 0 <= p < bucket@.len() ==> (#[trigger] bucket@[p]) < keys@.len(),
    ensures
        match r {
            Some(p) => p < bucket@.len() && keys@[bucket@[p as int] as int]@ == key@,
            None => forall|p: int|
                0 <= p < bucket@.len() ==> keys@[(#[trigger] bucket@[p]) as int]@ != key@,
        },
{
    let mut p: usize = 0;
    while p < bucket.len()
        invariant
            p <= bucket@.len(),
            forall|q: int| 0 <= q < bucket@.len() ==> (#[trigger] bucket@[q]) < keys@.len(),
            forall|q: int| 0 <= q < p ==> keys@[(#[trigger] bucket@[q]) as int]@ != key@,
        decreases bucket@.len() - p,
    {
        if bytes_eq(keys[bucket[p]].as_slice(), key) {
            return Some(p);
        }
        p += 1;
    }
    None
}

/// The position in `bucket` of the slot `slot`.
fn find_slot(bucket: &Vec<usize>, slot: usize) -> (r: Option<usize>)
    ensures
        match r {
            Some(p) => p < bucket@.len() && bucket@[p as int] == slot,
            None => forall|p: int| 0 <= p < bucket@.len() ==> #[trigger] bucket@[p] != slot,
        },
{
    let mut p: usize = 0;
    while p < bucket.len()
        invariant
            p <= bucket@.len(),
            forall|q: int| 0 <= q < p ==> #[trigger] bucket@[q] != slot,
        decreases bucket@.len() - p,
    {
        if bucket[p] == slot {
            return Some(p);
        }
        p += 1;
    }
    None
}

/// Buckets that list one more slot index one more key.
proof fn lemma_index_push(
    keys: Seq<Seq<u8>>,
    before: Seq<Seq<usize>>,
    after: Seq<Seq<usize>>,
    s: int,
    b: int,
)
    requires
        indexed_upto(keys, before, s),
        0 <= s < keys.len(),
        before.len() > 0,
        b == home(keys[s], before.len() as int),
        0 <= b < before.len(),
        after == before.update(b, before[b].push(s as usize)),
        s <= usize::MAX,
    ensures
        indexed_upto(keys, after, s + 1),
{
    let nb = before.len() as int;
    assert forall|c: int, p: int| 0 <= c < nb && 0 <= p < after[c].len() implies (
    #[trigger] after[c][p]) < s + 1 && home(keys[after[c][p] as int], nb) == c by {
        if c == b && p == before[b].len() {
        } else {
            assert(after[c][p] == before[c][p]);
        }
    }
    assert forall|c: int, p: int, q: int| 0 <= c < nb && 0 <= p < q < after[c].len() implies
        #[trigger] after[c][p] != #[trigger] after[c][q] by {
        if c == b && q == before[b].len() {
            assert(after[c][p] == before[c][p]);
        } else {
            assert(after[c][p] == before[c][p]);
            assert(after[c][q] == before[c][q]);
        }
    }
    assert forall|t: int| 0 <= t < s + 1 implies listed(after, home(#[trigger] keys[t], nb), t) by {
        let c = home(keys[t], nb);
        if t == s {
            assert(after[b][before[b].len() as int] == s);
        } else {
            assert(listed(before, c, t));
            let p = choose|p: int| 0 <= p < before[c].len() && #[trigger] before[c][p] == t;
            assert(after[c][p] == t);
        }
    }
}

/// Makes `count` buckets that index `keys`.
fn build_index(keys: &Vec<Vec<u8>>, count: usize) -> (buckets: Vec<Vec<usize>>)
    requires
        count > 0,
    ensures
        buckets@.len() == count,
        indexed_upto(key_views(keys@), bucket_views(buckets@), keys@.len() as int),
{
    let mut buckets: Vec<Vec<usize>> = Vec::new();
    let mut made: usize = 0;
    while made < count
        invariant
            made <= count,
            buckets@.len() == made,
            forall|b: int| 0 <= b < made ==> (#[trigger] buckets@[b])@.len() == 0,
        decreases count - made,
    {
        buckets.push(Vec::new());
        made += 1;
    }
    let ghost views = key_views(keys@);
    let mut s: usize = 0;
    while s < keys.len()
        invariant
            s <= keys@.len(),
            count > 0,
            buckets@.len() == count,
            views == key_views(keys@),
            indexed_upto(views, bucket_views(buckets@), s as int),
        decreases keys@.len() - s,
    {
        let b = bucket_for(keys[s].as_slice(), count);
        let ghost before = bucket_views(buckets@);
        let bucket = &mut buckets[b];
        bucket.push(s);
        proof {
            assert(bucket_views(buckets@) =~= before.update(b as int, before[b as int].push(s)));
            lemma_index_push(views, before, bucket_views(buckets@), s as int, b as int);
        }
        s += 1;
    }
    buckets
}

/// Buckets that index keys still do when one slot is dropped: the slot `s`
/// leaves the bucket that listed it, at position `p`; the key of the last
/// slot moves into slot `s`, and the bucket that listed the last slot, at
/// position `q`, lists `s` in its place.
proof fn lemma_index_drop(
    keys: Seq<Seq<u8>>,
    before: Seq<Seq<usize>>,
    middle: Seq<Seq<usize>>,
    after: Seq<Seq<usize>>,
    s: int,
    b: int,
    p: int,
    c: int,
    q: int,
)
    requires
        indexed_upto(keys, before, keys.len() as int),
        before.len() > 0,
        0 <= s < keys.len(),
        keys.len() <= usize::MAX,
        0 <= b < before.len(),
        0 <= p < before[b].len(),
        before[b][p] == s,
        middle == before.update(b, before[b].remove(p)),
        s == keys.len() - 1 ==> after == middle,
        s != keys.len() - 1 ==> {
            &&& c == home(keys[keys.len() - 1], before.len() as int)
            &&& 0 <= q < middle[c].len()
            &&& middle[c][q] == keys.len() - 1
            &&& after == middle.update(c, middle[c].update(q, s as usize))
        },
    ensures
        indexed_upto(
            keys.update(s, keys.last()).drop_last(),
            after,
            keys.len() - 1,
        ),
{
    let nb = before.len() as int;
    let n = keys.len() as int;
    let last = n - 1;
    let kept = keys.update(s, keys.last()).drop_last();
    assert forall|d: int, r: int| 0 <= d < nb && 0 <= r < after[d].len() implies (
    #[trigger] after[d][r]) < n - 1 && home(kept[after[d][r] as int], nb) == d by {
        let r0 = if d == b && r >= p {
            r + 1
        } else {
            r
        };
        assert(middle[d][r] == before[d][r0]);
        assert(before[d][r0] < n && home(keys[before[d][r0] as int], nb) == d);
        if d == b {
            assert(before[b][r0] != before[b][p]);
        }
    }
    assert forall|d: int, r: int, t: int| 0 <= d < nb && 0 <= r < t < after[d].len() implies
        #[trigger] after[d][r] != #[trigger] after[d][t] by {
        let r0 = if d == b && r >= p {
            r + 1
        } else {
            r
        };
        let t0 = if d == b && t >= p {
            t + 1
        } else {
            t
        };
        assert(middle[d][r] == before[d][r0]);
        assert(middle[d][t] == before[d][t0]);
        assert(before[d][r0] != before[d][t0]);
        assert(home(keys[before[d][r0] as int], nb) == d);
        assert(home(keys[before[d][t0] as int], nb) == d);
        if d == b {
            assert(before[b][r0] != before[b][p]);
            assert(before[b][t0] != before[b][p]);
        }
    }
    assert forall|t: int| 0 <= t < n - 1 implies listed(after, home(#[trigger] kept[t], nb), t) by {
        if t == s {
            assert(after[c][q] == s);
        } else {
            let d = home(keys[t], nb);
            assert(listed(before, d, t));
            let r0 = choose|r0: int| 0 <= r0 < before[d].len() && #[trigger] before[d][r0] == t;
            let r = if d == b && r0 > p {
                r0 - 1
            } else {
                r0
            };
            assert(middle[d][r] == t);
            assert(after[d][r] == t);
        }
    }
}

impl<V> ByteMap<V> {
    #[verifier::type_invariant]
    spec fn inv(&self) -> bool {
        &&& self.keys@.len() == self.values@.len()
        &&& forall|i: int, j: int|
            0 <= i < j < self.keys@.len() ==> self.keys@[i]@ != self.keys@[j]@
        &&& self.keys@.len() > 0 ==> self.buckets@.len() > 0
        &&& self.buckets@.len() > 0 ==> indexed_upto(
            key_views(self.keys@),
            bucket_views(self.buckets@),
            self.keys@.len() as int,
        )
    }

    /// The keys in the order in which they are enumerated.
    pub closed spec fn order(&self) -> Seq<Seq<u8>> {
        key_views(self.keys@)
    }

    /// The mapping that this value stands for.
    pub closed spec fn map(&self) -> Map<Seq<u8>, V> {
        Map::new(
            |k: Seq<u8>| self.order().contains(k),
            |k: Seq<u8>| self.values@[self.order().index_of(k)],
        )
    }

    /// An empty map.
    pub fn new() -> (r: Self)
        ensures
            r.map() == Map::<Seq<u8>, V>::empty(),
            r.order() == Seq::<Seq<u8>>::empty(),
    {
        let r = ByteMap { keys: Vec::new(), values: Vec::new(), buckets: Vec::new() };
        assert(r.order() =~= Seq::<Seq<u8>>::empty());
        assert(r.map() =~= Map::<Seq<u8>, V>::empty());
        r
    }

    /// The number of keys. Also states how `order()` relates to `map()`.
    pub fn len(&self) -> (n: usize)
        ensures
            n == self.map().len(),
            n == self.order().len(),
            self.map().dom().finite(),
            enumerates(self.order(), self.map().dom()),
    {
        proof {
            use_type_invariant(self);
            let order = self.order();
            assert(order.no_duplicates());
            assert(order.to_set() =~= self.map().dom());
            order.unique_seq_to_set();
            vstd::seq_lib::seq_to_set_is_finite(order);
        }
        self.keys.len()
    }

    /// Whether the map is empty.
    pub fn is_empty(&self) -> (r: bool)
        ensures
            r == (self.map().len() == 0),
            self.map().dom().finite(),
    {
        self.len() == 0
    }

    /// The slot that holds `key`, with the bucket that lists the slot and
    /// the position there.
    fn locate(&self, key: &[u8]) -> (r: Option<(usize, usize, usize)>)
        ensures
            match r {
                Some((slot, b, p)) => slot < self.order().len() && self.order()[slot as int]
                    == key@ && self.order().index_of(key@) == slot && self.order().contains(key@)
                    && b < self.buckets@.len() && p < self.buckets@[b as int]@.len()
                    && self.buckets@[b as int]@[p as int] == slot,
                None => !self.order().contains(key@),
            },
    {
        proof {
            use_type_invariant(self);
        }
        let count = self.buckets.len();
        if count == 0 {
            return None;
        }
        let ghost order = self.order();
        let ghost lists = bucket_views(self.buckets@);
        let b = bucket_for(key, count);
        proof {
            assert forall|p: int| 0 <= p < self.buckets@[b as int]@.len() implies (
            #[trigger] self.buckets@[b as int]@[p]) < self.keys@.len() by {
                assert(lists[b as int][p] < self.keys@.len());
            }
        }
        match find_in_bucket(&self.keys, &self.buckets[b], key) {
            Some(p) => {
                let slot = self.buckets[b][p];
                proof {
                    assert(lists[b as int][p as int] == slot);
                    assert(order[slot as int] == key@);
                    assert(order.contains(key@));
                    let j = order.index_of(key@);
                    assert(0 <= j < order.len() && order[j] == key@);
                    assert(self.keys@[j]@ == self.keys@[slot as int]@);
                }
                Some((slot, b, p))
            },
            None => {
                proof {
                    if order.contains(key@) {
                        let s = order.index_of(key@);
                        assert(order[s] == key@);
                        assert(listed(lists, home(order[s], count as int), s));
                        let p = choose|p: int|
                            0 <= p < lists[b as int].len() && #[trigger] lists[b as int][p] == s;
                        assert(self.buckets@[b as int]@[p] == s);
                    }
                }
                None
            },
        }
    }

    fn position(&self, key: &[u8]) -> (r: Option<usize>)
        ensures
            match r {
                Some(i) => i < self.order().len() && self.order()[i as int] == key@
                    && self.order().index_of(key@) == i && self.order().contains(key@),
                None => !self.order().contains(key@),
            },
    {
        match self.locate(key) {
            Some((slot, _, _)) => Some(slot),
            None => None,
        }
    }

    /// Whether `key` is in the map.
    pub fn contains_key(&self, key: &[u8]) -> (r: bool)
        ensures
            r == self.map().contains_key(key@),
    {
        self.position(key).is_some()
    }

    /// The value under `key`, if any.
    pub fn get(&self, key: &[u8]) -> (r: Option<&V>)
        ensures
            match r {
                Some(v) => self.map().contains_key(key@) && *v == self.map()[key@],
                None => !self.map().contains_key(key@),
            },
    {
        proof {
            use_type_invariant(self);
        }
        match self.position(key) {
            Some(i) => Some(&self.values[i]),
            None => None,
        }
    }

    /// The value under `key`, if any, for changing in place.
    pub fn get_mut(&mut self, key: &[u8]) -> (r: Option<&mut V>)
        ensures
            match r {
                Some(v) => old(self).map().contains_key(key@) && *v == old(self).map()[key@]
                    && final(self).map() == old(self).map().insert(key@, *final(v))
                    && final(self).order() == old(self).order(),
                None => !old(self).map().contains_key(key@) && *final(self) == *old(self),
            },
    {
        proof {
            use_type_invariant(&*self);
        }
        match self.position(key) {
            Some(i) => {
                proof {
                    let pre = *self;
                    assert forall|post: Self|
                        post.keys == pre.keys && post.values@ == pre.values@.update(
                            i as int,
                            post.values@[i as int],
                        ) implies #[trigger] post.map() == pre.map().insert(
                        key@,
                        post.values@[i as int],
                    ) && post.order() == pre.order() by {
                        assert(post.order() =~= pre.order());
                        assert(post.map() =~= pre.map().insert(key@, post.values@[i as int]));
                    }
                }
                Some(&mut self.values[i])
            },
            None => None,
        }
    }

    /// The key at position `i` of the enumeration.
    pub fn key_at(&self, i: usize) -> (k: &Vec<u8>)
        requires
            i < self.order().len(),
        ensures
            k@ == self.order()[i as int],
    {
        &self.keys[i]
    }

    /// The value under the key at position `i` of the enumeration.
    pub fn value_at(&self, i: usize) -> (v: &V)
        requires
            i < self.order().len(),
        ensures
            self.map().contains_key(self.order()[i as int]),
            *v == self.map()[self.order()[i as int]],
    {
        proof {
            use_type_invariant(self);
            let k = self.order()[i as int];
            assert(self.order().contains(k));
            let j = self.order().index_of(k);
            assert(self.keys@[j]@ == self.keys@[i as int]@);
        }
        &self.values[i]
    }

    /// Puts `value` under `key` and returns what was there before. A new key
    /// goes to the end of the enumeration; an old one keeps its place.
    pub fn insert(&mut self, key: Vec<u8>, value: V) -> (r: Option<V>)
        ensures
            final(self).map() == old(self).map().insert(key@, value),
            r == (if old(self).map().contains_key(key@) {
                Some(old(self).map()[key@])
            } else {
                None
            }),
            final(self).order() == (if old(self).map().contains_key(key@) {
                old(self).order()
            } else {
                old(self).order().push(key@)
            }),
    {
        proof {
            use_type_invariant(&*self);
        }
        let found = self.position(key.as_slice());
        let mut taken = ByteMap { keys: Vec::new(), values: Vec::new(), buckets: Vec::new() };
        core::mem::swap(self, &mut taken);
        let ByteMap { keys: mut keys, values: mut values, buckets: mut buckets } = taken;
        let ghost pre = *old(self);
        match found {
            Some(i) => {
                values.push(value);
                let prev = values.swap_remove(i);
                *self = ByteMap { keys, values, buckets };
                proof {
                    assert(self.order() =~= pre.order());
                    assert(self.map() =~= pre.map().insert(key@, value));
                }
                Some(prev)
            },
            None => {
                let ghost n = pre.order().len() as int;
                let ghost old_views = key_views(keys@);
                let ghost old_lists = bucket_views(buckets@);
                let slot = keys.len();
                let b = if buckets.len() > 0 {
                    Some(bucket_for(key.as_slice(), buckets.len()))
                } else {
                    None
                };
                keys.push(key);
                values.push(value);
                let ghost views = key_views(keys@);
                proof {
                    assert(views =~= old_views.push(key@));
                    assert forall|i: int, j: int| 0 <= i < j < keys@.len() implies keys@[i]@
                        != keys@[j]@ by {
                        if j == n {
                            assert(pre.order()[i] == keys@[i]@);
                        }
                    }
                }
                let crowded = match b {
                    Some(_) => slot / 4 >= buckets.len(),
                    None => true,
                };
                if crowded {
                    let wanted: usize = match keys.len().checked_mul(2) {
                        Some(twice) => if twice < MIN_BUCKETS {
                            MIN_BUCKETS
                        } else {
                            twice
                        },
                        None => usize::MAX,
                    };
                    buckets = build_index(&keys, wanted);
                } else {
                    match b {
                        Some(b) => {
                            let bucket = &mut buckets[b];
                            bucket.push(slot);
                            proof {
                                assert(bucket_views(buckets@) =~= old_lists.update(
                                    b as int,
                                    old_lists[b as int].push(slot),
                                ));
                                assert(indexed_upto(views, old_lists, n)) by {
                                    assert forall|s: int| 0 <= s < n implies #[trigger] views[s]
                                        == old_views[s] by {}
                                }
                                lemma_index_push(
                                    views,
                                    old_lists,
                                    bucket_views(buckets@),
                                    n,
                                    b as int,
                                );
                            }
                        },
                        None => {},
                    }
                }
                *self = ByteMap { keys, values, buckets };
                proof {
                    assert(self.order() =~= pre.order().push(key@));
                    assert forall|k: Seq<u8>| #[trigger] self.order().contains(k) implies self.values@[self.order().index_of(k)]
                        == pre.map().insert(key@, value)[k] by {
                        let idx = self.order().index_of(k);
                        if idx < n {
                            assert(pre.order()[idx] == k);
                            assert(pre.order().contains(k));
                            assert(pre.order().index_of(k) == idx);
                        }
                    }
                    assert forall|k: Seq<u8>| self.order().contains(k) <==> (pre.order().contains(k) || k == key@) by {
                        if pre.order().contains(k) {
                            let idx = pre.order().index_of(k);
                            assert(self.order()[idx] == k);
                        }
                        if k == key@ {
                            assert(self.order()[n] == k);
                        }
                    }
                    assert(self.map() =~= pre.map().insert(key@, value));
                }
                None
            },
        }
    }

    /// Takes `key` out of the map and returns what was under it. The key
    /// that stood last in the enumeration takes its place.
    pub fn remove(&mut self, key: &[u8]) -> (r: Option<V>)
        ensures
            final(self).map() == old(self).map().remove(key@),
            r == (if old(self).map().contains_key(key@) {
                Some(old(self).map()[key@])
            } else {
                None
            }),
            !old(self).map().contains_key(key@) ==> final(self).order() == old(self).order(),
    {
        proof {
            use_type_invariant(&*self);
        }
        let found = self.locate(key);
        let ghost pre = *old(self);
        match found {
            Some((slot, b, p)) => {
                let mut taken = ByteMap {
                    keys: Vec::new(),
                    values: Vec::new(),
                    buckets: Vec::new(),
                };
                core::mem::swap(self, &mut taken);
                let ByteMap { keys: mut keys, values: mut values, buckets: mut buckets } = taken;
                let ghost views = key_views(keys@);
                let ghost lists = bucket_views(buckets@);
                let count = buckets.len();
                let last = keys.len() - 1;
                {
                    let bucket = &mut buckets[b];
                    let _ = bucket.remove(p);
                }
                let ghost middle = bucket_views(buckets@);
                proof {
                    assert(middle =~= lists.update(b as int, lists[b as int].remove(p as int)));
                }
                let mut c: usize = 0;
                let mut q: usize = 0;
                if slot != last {
                    c = bucket_for(keys[last].as_slice(), count);
                    proof {
                        assert(views[last as int] == keys@[last as int]@);
                        assert(listed(lists, c as int, last as int));
                        let r0 = choose|r0: int|
                            0 <= r0 < lists[c as int].len() && #[trigger] lists[c as int][r0]
                                == last;
                        let r = if c == b && r0 > p {
                            r0 - 1
                        } else {
                            r0
                        };
                        assert(lists[b as int][p as int] == slot);
                        assert(middle[c as int][r] == last);
                        assert(buckets@[c as int]@[r] == last);
                    }
                    q = match find_slot(&buckets[c], last) {
                        Some(q) => q,
                        None => 0,
                    };
                    let bucket = &mut buckets[c];
                    bucket[q] = slot;
                    proof {
                        assert(bucket_views(buckets@) =~= middle.update(
                            c as int,
                            middle[c as int].update(q as int, slot),
                        ));
                    }
                }
                let _ = keys.swap_remove(slot);
                let prev = values.swap_remove(slot);
                proof {
                    lemma_index_drop(
                        views,
                        lists,
                        middle,
                        bucket_views(buckets@),
                        slot as int,
                        b as int,
                        p as int,
                        c as int,
                        q as int,
                    );
                    assert(key_views(keys@) =~= views.update(slot as int, views.last()).drop_last());
                    assert forall|i: int, j: int| 0 <= i < j < keys@.len() implies keys@[i]@
                        != keys@[j]@ by {
                        assert(keys@[i]@ == (if i == slot {
                            views[last as int]
                        } else {
                            views[i]
                        }));
                        assert(keys@[j]@ == (if j == slot {
                            views[last as int]
                        } else {
                            views[j]
                        }));
                        assert(views[i] == pre.keys@[i]@);
                        assert(views[j] == pre.keys@[j]@);
                        assert(views[last as int] == pre.keys@[last as int]@);
                    }
                }
                *self = ByteMap { keys, values, buckets };
                proof {
                    let post = *self;
                    let before = pre.order();
                    let after = post.order();
                    assert(after =~= before.update(slot as int, before.last()).drop_last());
                    assert forall|k: Seq<u8>| after.contains(k) <==> (before.contains(k) && k
                        != key@) by {
                        if after.contains(k) {
                            let idx = after.index_of(k);
                            if idx == slot {
                                assert(before[last as int] == k);
                            } else {
                                assert(before[idx] == k);
                            }
                        }
                        if before.contains(k) && k != key@ {
                            let idx = before.index_of(k);
                            if idx == last {
                                assert(after[slot as int] == k);
                            } else {
                                assert(after[idx] == k);
                            }
                        }
                    }
                    assert forall|k: Seq<u8>| #[trigger] after.contains(k) implies post.values@[after.index_of(k)]
                        == pre.map()[k] by {
                        let idx = after.index_of(k);
                        if idx == slot {
                            assert(before[last as int] == k);
                            assert(before.index_of(k) == last);
                        } else {
                            assert(before[idx] == k);
                            assert(before.index_of(k) == idx);
                        }
                    }
                    assert(post.map() =~= pre.map().remove(key@));
                }
                Some(prev)
            },
            None => {
                proof {
                    assert(self.map() =~= pre.map().remove(key@));
                }
                None
            },
        }
    }

    /// Empties the map.
    pub fn clear(&mut self)
        ensures
            final(self).map() == Map::<Seq<u8>, V>::empty(),
            final(self).order() == Seq::<Seq<u8>>::empty(),
    {
        *self = ByteMap::new();
    }
}

/// A finite set of byte strings.
#[derive(Debug)]
pub struct ByteSet {
    inner: ByteMap<()>,
}

impl ByteSet {
    /// The members of the set.
    pub closed spec fn members(&self) -> Set<Seq<u8>> {
        self.inner.map().dom()
    }

    /// The members in the order in which they are enumerated.
    pub closed spec fn order(&self) -> Seq<Seq<u8>> {
        self.inner.order()
    }

    /// An empty set.
    pub fn new() -> (r: Self)
        ensures
            r.members() == Set::<Seq<u8>>::empty(),
            r.order() == Seq::<Seq<u8>>::empty(),
    {
        let r = ByteSet { inner: ByteMap::new() };
        assert(r.members() =~= Set::<Seq<u8>>::empty());
        r
    }

    /// The number of members. Also states how `order()` relates to `members()`.
    pub fn len(&self) -> (n: usize)
        ensures
            n == self.members().len(),
            n == self.order().len(),
            self.members().finite(),
            enumerates(self.order(), self.members()),
    {
        self.inner.len()
    }

    /// Whether `item` is a member.
    pub fn contains(&self, item: &[u8]) -> (r: bool)
        ensures
            r == self.members().contains(item@),
    {
        self.inner.contains_key(item)
    }

    /// Adds `item`; says whether it was new.
    pub fn insert(&mut self, item: Vec<u8>) -> (r: bool)
        ensures
            final(self).members() == old(self).members().insert(item@),
            r == !old(self).members().contains(item@),
            final(self).order() == (if r {
                old(self).order().push(item@)
            } else {
                old(self).order()
            }),
    {
        let prev = self.inner.insert(item, ());
        assert(self.members() =~= old(self).members().insert(item@));
        prev.is_none()
    }

    /// Removes `item`; says whether it was a member.
    pub fn remove(&mut self, item: &[u8]) -> (r: bool)
        ensures
            final(self).members() == old(self).members().remove(item@),
            r == old(self).members().contains(item@),
    {
        let prev = self.inner.remove(item);
        assert(self.members() =~= old(self).members().remove(item@));
        prev.is_some()
    }

    /// The member at position `i` of the enumeration.
    pub fn item_at(&self, i: usize) -> (k: &Vec<u8>)
        requires
            i < self.order().len(),
        ensures
            k@ == self.order()[i as int],
    {
        self.inner.key_at(i)
    }
}

} // verus!
