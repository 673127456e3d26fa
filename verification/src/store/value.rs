//! The values a key can hold.

use vstd::prelude::*;
use std::collections::VecDeque;
use crate::store::bytemap::ByteMap;
use crate::store::bytemap::ByteSet;

verus! {

/// Bytes charged for an integer value.
pub const INTEGER_BYTES: usize = 8;

/// Bytes charged for a list besides its items.
pub const LIST_OVERHEAD: usize = 32;

/// Bytes charged for a set or a hash besides its items.
pub const TABLE_OVERHEAD: usize = 48;

/// A stored value: exactly one of five kinds.
#[derive(Debug)]
pub enum Value {
    /// A binary-safe byte string.
    String(Vec<u8>),
    /// A 64-bit signed integer.
    Integer(i64),
    /// An ordered sequence of byte strings, open at both ends.
    List(VecDeque<Vec<u8>>),
    /// A set of byte strings.
    Members(ByteSet),
    /// A mapping from field to value.
    Hash(ByteMap<Vec<u8>>),
}

/// What a `Value` stands for.
pub ghost enum ValueView {
    String(Seq<u8>),
    Integer(i64),
    List(Seq<Seq<u8>>),
    Members(Set<Seq<u8>>),
    Hash(Map<Seq<u8>, Seq<u8>>),
}

/// The items of a list as byte sequences.
pub open spec fn list_view(list: VecDeque<Vec<u8>>) -> Seq<Seq<u8>> {
    list@.map_values(|item: Vec<u8>| item@)
}

/// The fields of a hash with their values, as byte sequences.
pub open spec fn hash_view(hash: ByteMap<Vec<u8>>) -> Map<Seq<u8>, Seq<u8>> {
    hash.map().map_values(|item: Vec<u8>| item@)
}

/// The sum of the lengths of `items`.
pub open spec fn total_len(items: Seq<Seq<u8>>) -> nat
    decreases items.len(),
{
    if items.len() == 0 {
        0
    } else {
        total_len(items.drop_last()) + items.last().len()
    }
}

/// `n`, or `usize::MAX` where `n` is larger.
pub open spec fn clamp_usize(n: nat) -> usize {
    if n <= usize::MAX {
        n as usize
    } else {
        usize::MAX
    }
}

impl View for Value {
    type V = ValueView;

    open spec fn view(&self) -> ValueView {
        match self {
            Value::String(b) => ValueView::String(b@),
            Value::Integer(i) => ValueView::Integer(*i),
            Value::List(l) => ValueView::List(list_view(*l)),
            Value::Members(s) => ValueView::Members(s.members()),
            Value::Hash(h) => ValueView::Hash(hash_view(*h)),
        }
    }
}

impl Value {
    /// A string value.
    pub fn string(bytes: Vec<u8>) -> (r: Self)
        ensures
            r@ == ValueView::String(bytes@),
    {
        Value::String(bytes)
    }

    /// An integer value.
    pub fn integer(i: i64) -> (r: Self)
        ensures
            r@ == ValueView::Integer(i),
    {
        Value::Integer(i)
    }

    /// An empty list.
    pub fn empty_list() -> (r: Self)
        ensures
            r@ == ValueView::List(Seq::empty()),
    {
        let r = Value::List(VecDeque::new());
        assert(r@->List_0 =~= Seq::empty());
        r
    }

    /// An empty set.
    pub fn empty_set() -> (r: Self)
        ensures
            r@ == ValueView::Members(Set::empty()),
    {
        Value::Members(ByteSet::new())
    }

    /// An empty hash.
    pub fn empty_hash() -> (r: Self)
        ensures
            r@ == ValueView::Hash(Map::empty()),
    {
        let r = Value::Hash(ByteMap::new());
        assert(r@->Hash_0 =~= Map::empty());
        r
    }

    /// The name of the value's kind.
    pub fn kind_name(&self) -> (r: &'static str)
        ensures
            r@ == (match self@ {
                ValueView::String(_) => "string"@,
                ValueView::Integer(_) => "integer"@,
                ValueView::List(_) => "list"@,
                ValueView::Members(_) => "set"@,
                ValueView::Hash(_) => "hash"@,
            }),
    {
        match self {
            Value::String(_) => "string",
            Value::Integer(_) => "integer",
            Value::List(_) => "list",
            Value::Members(_) => "set",
            Value::Hash(_) => "hash",
        }
    }

    /// Whether the value is a string.
    pub fn is_string(&self) -> (r: bool)
        ensures
            r == (self@ is String),
    {
        match self {
            Value::String(_) => true,
            _ => false,
        }
    }

    /// Whether the value is an integer.
    pub fn is_integer(&self) -> (r: bool)
        ensures
            r == (self@ is Integer),
    {
        match self {
            Value::Integer(_) => true,
            _ => false,
        }
    }

    /// The bytes of a string value.
    pub fn as_string(&self) -> (r: Option<&Vec<u8>>)
        ensures
            match r {
                Some(b) => self@ == ValueView::String(b@),
                None => !(self@ is String),
            },
    {
        match self {
            Value::String(b) => Some(b),
            _ => None,
        }
    }

    /// The number of an integer value.
    pub fn as_integer(&self) -> (r: Option<i64>)
        ensures
            match r {
                Some(i) => self@ == ValueView::Integer(i),
                None => !(self@ is Integer),
            },
    {
        match self {
            Value::Integer(i) => Some(*i),
            _ => None,
        }
    }

    /// The items of a list value.
    pub fn as_list(&self) -> (r: Option<&VecDeque<Vec<u8>>>)
        ensures
            match r {
                Some(l) => self@ == ValueView::List(list_view(*l)),
                None => !(self@ is List),
            },
    {
        match self {
            Value::List(l) => Some(l),
            _ => None,
        }
    }

    /// The members of a set value.
    pub fn as_set(&self) -> (r: Option<&ByteSet>)
        ensures
            match r {
                Some(s) => self@ == ValueView::Members(s.members()),
                None => !(self@ is Members),
            },
    {
        match self {
            Value::Members(s) => Some(s),
            _ => None,
        }
    }

    /// The fields of a hash value.
    pub fn as_hash(&self) -> (r: Option<&ByteMap<Vec<u8>>>)
        ensures
            match r {
                Some(h) => self@ == ValueView::Hash(hash_view(*h)),
                None => !(self@ is Hash),
            },
    {
        match self {
            Value::Hash(h) => Some(h),
            _ => None,
        }
    }

    /// The items of a list value, for changing in place.
    pub fn as_list_mut(&mut self) -> (r: Option<&mut VecDeque<Vec<u8>>>)
        ensures
            match r {
                Some(l) => old(self)@ == ValueView::List(list_view(*l)) && final(self)@
                    == ValueView::List(list_view(*final(l))),
                None => !(old(self)@ is List) && *final(self) == *old(self),
            },
    {
        match self {
            Value::List(l) => Some(l),
            _ => None,
        }
    }

    /// The members of a set value, for changing in place.
    pub fn as_set_mut(&mut self) -> (r: Option<&mut ByteSet>)
        ensures
            match r {
                Some(s) => old(self)@ == ValueView::Members(s.members()) && final(self)@
                    == ValueView::Members(final(s).members()),
                None => !(old(self)@ is Members) && *final(self) == *old(self),
            },
    {
        match self {
            Value::Members(s) => Some(s),
            _ => None,
        }
    }

    /// The fields of a hash value, for changing in place.
    pub fn as_hash_mut(&mut self) -> (r: Option<&mut ByteMap<Vec<u8>>>)
        ensures
            match r {
                Some(h) => old(self)@ == ValueView::Hash(hash_view(*h)) && final(self)@
                    == ValueView::Hash(hash_view(*final(h))),
                None => !(old(self)@ is Hash) && *final(self) == *old(self),
            },
    {
        match self {
            Value::Hash(h) => Some(h),
            _ => None,
        }
    }

    /// The bytes that the value is charged with: the lengths of its items
    /// and a fixed overhead for its kind, in the order of enumeration.
    pub open spec fn footprint(&self) -> nat {
        match self {
            Value::String(b) => b@.len(),
            Value::Integer(_) => INTEGER_BYTES as nat,
            Value::List(l) => total_len(list_view(*l)) + LIST_OVERHEAD as nat,
            Value::Members(s) => total_len(s.order()) + TABLE_OVERHEAD as nat,
            Value::Hash(h) => total_len(h.order()) + total_len(
                h.order().map_values(|k: Seq<u8>| hash_view(*h)[k]),
            ) + TABLE_OVERHEAD as nat,
        }
    }

    /// Approximate memory use in bytes, capped at `usize::MAX`.
    pub fn memory_usage(&self) -> (r: usize)
        ensures
            r == clamp_usize(self.footprint()),
    {
        match self {
            Value::String(b) => b.len(),
            Value::Integer(_) => INTEGER_BYTES,
            Value::List(l) => {
                let mut sum: usize = 0;
                let mut i: usize = 0;
                while i < l.len()
                    invariant
                        i <= l@.len(),
                        sum == clamp_usize(total_len(list_view(*l).take(i as int))),
                    decreases l@.len() - i,
                {
                    proof {
                        let next = list_view(*l).take(i + 1);
                        assert(next.drop_last() =~= list_view(*l).take(i as int));
                    }
                    sum = sum.saturating_add(l[i].len());
                    i += 1;
                }
                assert(list_view(*l).take(i as int) =~= list_view(*l));
                sum.saturating_add(LIST_OVERHEAD)
            },
            Value::Members(s) => {
                let n = s.len();
                let mut sum: usize = 0;
                let mut i: usize = 0;
                while i < n
                    invariant
                        n == s.order().len(),
                        i <= n,
                        sum == clamp_usize(total_len(s.order().take(i as int))),
                    decreases n - i,
                {
                    proof {
                        let next = s.order().take(i + 1);
                        assert(next.drop_last() =~= s.order().take(i as int));
                    }
                    sum = sum.saturating_add(s.item_at(i).len());
                    i += 1;
                }
                assert(s.order().take(i as int) =~= s.order());
                sum.saturating_add(TABLE_OVERHEAD)
            },
            Value::Hash(h) => {
                let n = h.len();
                let ghost vals = h.order().map_values(|k: Seq<u8>| hash_view(*h)[k]);
                let mut sum: usize = 0;
                let mut i: usize = 0;
                while i < n
                    invariant
                        n == h.order().len(),
                        i <= n,
                        vals == h.order().map_values(|k: Seq<u8>| hash_view(*h)[k]),
                        sum == clamp_usize(
                            total_len(h.order().take(i as int)) + total_len(vals.take(i as int)),
                        ),
                    decreases n - i,
                {
                    proof {
                        assert(h.order().take(i + 1).drop_last() =~= h.order().take(i as int));
                        assert(vals.take(i + 1).drop_last() =~= vals.take(i as int));
                    }
                    sum = sum.saturating_add(h.key_at(i).len());
                    sum = sum.saturating_add(h.value_at(i).len());
                    i += 1;
                }
                assert(h.order().take(i as int) =~= h.order());
                assert(vals.take(i as int) =~= vals);
                sum.saturating_add(TABLE_OVERHEAD)
            },
        }
    }
}

} // verus!
