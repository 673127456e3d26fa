//! Writing the append-only log: what goes to the file, and when it is
//! forced to disk.
//!
//! The writer decides; whoever owns the file acts. `write` and `sync` add to
//! a batch of bytes that are due to the file, and `flush` hands the batch over
//! together with the order to force it to disk or not.

use vstd::prelude::*;
use crate::aof::entry::entry_bytes;
use crate::aof::entry::AofEntry;
use crate::aof::entry::AofEntryView;
use crate::aof::SyncPolicy;
use crate::octets::append_bytes;
use crate::store::clock::NANOS_PER_SEC;

verus! {

/// What a writer stands for.
pub ghost struct WriterView {
    /// When the log is forced to disk.
    pub policy: SyncPolicy,
    /// The instant of the last forced write, in nanoseconds on the
    /// monotonic clock.
    pub last_sync: u64,
    /// Bytes that are due to the file.
    pub pending: Seq<u8>,
    /// Whether the file is to be forced to disk once the pending bytes are
    /// written.
    pub sync_due: bool,
}

/// Bytes for the log file, and whether to force the file to disk after
/// writing them.
#[derive(Debug)]
pub struct WriteBatch {
    /// The bytes to append to the file.
    pub bytes: Vec<u8>,
    /// Whether to force the file to disk afterwards.
    pub sync: bool,
}

/// Whether a write at `now` forces the log to disk.
pub open spec fn sync_on_write(policy: SyncPolicy, last_sync: u64, now: u64) -> bool {
    match policy {
        SyncPolicy::Always => true,
        SyncPolicy::EverySecond => now - last_sync >= NANOS_PER_SEC,
        SyncPolicy::No => false,
    }
}

impl WriterView {
    /// The writer after `entry` is written at `now`.
    pub open spec fn write(self, entry: AofEntryView, now: u64) -> WriterView {
        let due = sync_on_write(self.policy, self.last_sync, now);
        WriterView {
            policy: self.policy,
            last_sync: if due && self.policy == SyncPolicy::EverySecond {
                now
            } else {
                self.last_sync
            },
            pending: self.pending + entry_bytes(entry),
            sync_due: self.sync_due || due,
        }
    }

    /// The writer after the entries `entries` are written at `now`, in order.
    pub open spec fn write_all(self, entries: Seq<AofEntryView>, now: u64) -> WriterView
        decreases entries.len(),
    {
        if entries.len() == 0 {
            self
        } else {
            self.write_all(entries.drop_last(), now).write(entries.last(), now)
        }
    }
}

/// The writer of one log.
pub struct AofWriter {
    sync_policy: SyncPolicy,
    last_sync: u64,
    pending: Vec<u8>,
    sync_due: bool,
}

impl View for AofWriter {
    type V = WriterView;

    closed spec fn view(&self) -> WriterView {
        WriterView {
            policy: self.sync_policy,
            last_sync: self.last_sync,
            pending: self.pending@,
            sync_due: self.sync_due,
        }
    }
}

impl AofWriter {
    /// A writer with nothing pending, whose last forced write counts as made
    /// at `now`.
    pub fn new(sync_policy: SyncPolicy, now: u64) -> (r: Self)
        ensures
            r@ == (WriterView {
                policy: sync_policy,
                last_sync: now,
                pending: Seq::empty(),
                sync_due: false,
            }),
    {
        AofWriter { sync_policy, last_sync: now, pending: Vec::new(), sync_due: false }
    }

    /// The sync policy.
    pub fn sync_policy(&self) -> (r: SyncPolicy)
        ensures
            r == self@.policy,
    {
        self.sync_policy
    }

    /// Writes `entry` at `now`: its bytes become pending, and the policy
    /// decides whether the file is forced to disk.
    pub fn write(&mut self, entry: &AofEntry, now: u64)
        ensures
            final(self)@ == old(self)@.write(entry@, now),
    {
        let bytes = entry.to_bytes();
        append_bytes(&mut self.pending, bytes.as_slice());
        match self.sync_policy {
            SyncPolicy::Always => {
                self.sync_due = true;
            },
            SyncPolicy::EverySecond => {
                if now >= self.last_sync && now - self.last_sync >= NANOS_PER_SEC {
                    self.sync_due = true;
                    self.last_sync = now;
                }
            },
            SyncPolicy::No => {},
        }
    }

    /// Orders the file to be forced to disk, at `now`.
    pub fn sync(&mut self, now: u64)
        ensures
            final(self)@ == (WriterView { last_sync: now, sync_due: true, ..old(self)@ }),
    {
        self.sync_due = true;
        self.last_sync = now;
    }

    /// Hands over what is due to the file and starts a new batch.
    pub fn flush(&mut self) -> (r: WriteBatch)
        ensures
            r.bytes@ == old(self)@.pending,
            r.sync == old(self)@.sync_due,
            final(self)@ == (WriterView {
                pending: Seq::empty(),
                sync_due: false,
                ..old(self)@
            }),
    {
        let mut bytes: Vec<u8> = Vec::new();
        core::mem::swap(&mut bytes, &mut self.pending);
        let sync = self.sync_due;
        self.sync_due = false;
        WriteBatch { bytes, sync }
    }
}

} // verus!
