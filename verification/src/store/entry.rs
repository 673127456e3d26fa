//! One record of the store: a value with its optional expiry.

use vstd::prelude::*;
use crate::store::clock::NANOS_PER_SEC;
use crate::store::value::clamp_usize;
use crate::store::value::Value;
use crate::store::value::ValueView;

verus! {

/// Bytes charged for an entry's expiry and version.
pub const ENTRY_OVERHEAD: usize = 24;

/// A key with its value, optional expiration instant and version counter.
#[derive(Debug)]
pub struct Entry {
    /// The key.
    pub key: Vec<u8>,
    /// The value.
    pub value: Value,
    /// The instant from which the entry counts as gone, in nanoseconds on
    /// the store's clock.
    pub expire_at: Option<u128>,
    /// A counter kept for later use.
    pub version: u64,
}

/// What an `Entry` stands for.
pub ghost struct EntryView {
    pub key: Seq<u8>,
    pub value: ValueView,
    pub expire_at: Option<u128>,
    pub version: u64,
}

impl EntryView {
    /// Whether the entry counts as gone at `now`.
    pub open spec fn is_expired(self, now: u64) -> bool {
        match self.expire_at {
            Some(deadline) => now >= deadline,
            None => false,
        }
    }

    /// The expiry that a time to live of `seconds`, set at `now`, gives: none
    /// where `seconds` is not positive.
    pub open spec fn deadline(seconds: i64, now: u64) -> Option<u128> {
        if seconds > 0 {
            Some((now + seconds * NANOS_PER_SEC) as u128)
        } else {
            None
        }
    }

    /// The remaining time to live at `now`, in whole seconds, capped at
    /// `i64::MAX`: -1 without expiry, -2 once expired.
    pub open spec fn ttl_seconds(self, now: u64) -> i64 {
        match self.expire_at {
            Some(deadline) => if deadline > now {
                let whole = (deadline - now) / (NANOS_PER_SEC as int);
                if whole <= i64::MAX {
                    whole as i64
                } else {
                    i64::MAX
                }
            } else {
                -2i64
            },
            None => -1i64,
        }
    }

    /// The same entry with another value.
    pub open spec fn with_value(self, value: ValueView) -> EntryView {
        EntryView { value, ..self }
    }

    /// The same entry with another expiry.
    pub open spec fn with_expiry(self, expire_at: Option<u128>) -> EntryView {
        EntryView { expire_at, ..self }
    }

    /// A fresh entry: no expiry, version 0.
    pub open spec fn fresh(key: Seq<u8>, value: ValueView) -> EntryView {
        EntryView { key, value, expire_at: None, version: 0 }
    }
}

impl View for Entry {
    type V = EntryView;

    open spec fn view(&self) -> EntryView {
        EntryView {
            key: self.key@,
            value: self.value@,
            expire_at: self.expire_at,
            version: self.version,
        }
    }
}

impl Entry {
    /// A new entry without expiration.
    pub fn new(key: Vec<u8>, value: Value) -> (r: Self)
        ensures
            r@ == EntryView::fresh(key@, value@),
            r.value == value,
    {
        Entry { key, value, expire_at: None, version: 0 }
    }

    /// A new entry that expires `ttl_nanos` nanoseconds after `now`.
    pub fn with_expiration(key: Vec<u8>, value: Value, ttl_nanos: u64, now: u64) -> (r: Self)
        ensures
            r@ == EntryView::fresh(key@, value@).with_expiry(Some((now + ttl_nanos) as u128)),
            r.value == value,
    {
        let deadline: u128 = now as u128 + ttl_nanos as u128;
        Entry { key, value, expire_at: Some(deadline), version: 0 }
    }

    /// Whether the entry has expired at `now`.
    pub fn is_expired(&self, now: u64) -> (r: bool)
        ensures
            r == self@.is_expired(now),
    {
        match self.expire_at {
            Some(deadline) => now as u128 >= deadline,
            None => false,
        }
    }

    /// Sets the expiry to `ttl_seconds` after `now`; a time to live that is not
    /// positive removes the expiry.
    pub fn set_expiration(&mut self, ttl_seconds: i64, now: u64)
        ensures
            final(self)@ == old(self)@.with_expiry(EntryView::deadline(ttl_seconds, now)),
            final(self).value == old(self).value,
    {
        if ttl_seconds > 0 {
            assert(NANOS_PER_SEC == 1_000_000_000);
            let span: u128 = ttl_seconds as u128 * 1_000_000_000u128;
            self.expire_at = Some(now as u128 + span);
        } else {
            self.expire_at = None;
        }
    }

    /// Removes the expiry.
    pub fn remove_expiration(&mut self)
        ensures
            final(self)@ == old(self)@.with_expiry(None),
            final(self).value == old(self).value,
    {
        self.expire_at = None;
    }

    /// The remaining time to live in seconds at `now`: -1 without expiry, -2
    /// once expired.
    pub fn ttl_seconds(&self, now: u64) -> (r: i64)
        ensures
            r == self@.ttl_seconds(now),
    {
        match self.expire_at {
            Some(deadline) => {
                if deadline > now as u128 {
                    assert(NANOS_PER_SEC == 1_000_000_000);
                    let whole: u128 = (deadline - now as u128) / 1_000_000_000u128;
                    if whole <= i64::MAX as u128 {
                        whole as i64
                    } else {
                        i64::MAX
                    }
                } else {
                    -2
                }
            },
            None => -1,
        }
    }

    /// Adds one to the version, wrapping round.
    pub fn increment_version(&mut self)
        ensures
            final(self)@ == (EntryView {
                version: (if old(self).version == u64::MAX {
                    0
                } else {
                    (old(self).version + 1) as u64
                }),
                ..old(self)@
            }),
            final(self).value == old(self).value,
    {
        self.version = self.version.wrapping_add(1);
    }

    /// The bytes that the entry is charged with: its key, its value and a
    /// fixed overhead.
    pub open spec fn footprint(&self) -> nat {
        self.key@.len() + self.value.footprint() + ENTRY_OVERHEAD as nat
    }

    /// Approximate memory use in bytes, capped at `usize::MAX`.
    pub fn memory_usage(&self) -> (r: usize)
        ensures
            r == clamp_usize(self.footprint()),
    {
        self.key.len().saturating_add(self.value.memory_usage()).saturating_add(ENTRY_OVERHEAD)
    }
}

} // verus!
