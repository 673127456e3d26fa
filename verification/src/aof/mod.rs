//! The append-only file: a durable log of the operations that change the
//! store.

use vstd::prelude::*;
use vstd::string::StringExecFns;

pub mod checksum;
pub mod entry;
pub mod laws;
pub mod reader;
pub mod replay;
pub mod writer;

pub use entry::AofEntry;
pub use entry::AofEntryView;
pub use entry::AofError;
pub use entry::AofOperation;
pub use reader::AofReader;
pub use replay::replay_entries;
pub use replay::replay_entry;
pub use writer::AofWriter;
pub use writer::WriteBatch;

verus! {

/// When the log is forced to disk.
#[derive(Debug, Clone, Copy, PartialEq, Eq, Structural)]
pub enum SyncPolicy {
    /// After every write.
    Always,
    /// When a second or more has passed since the last time.
    EverySecond,
    /// Never; the operating system decides.
    No,
}

impl Default for SyncPolicy {
    fn default() -> (r: Self)
        ensures
            r == SyncPolicy::EverySecond,
    {
        SyncPolicy::EverySecond
    }
}

/// How the log is kept.
#[derive(Debug)]
pub struct AofConfig {
    /// The path of the log file.
    pub path: String,
    /// When the log is forced to disk.
    pub sync_policy: SyncPolicy,
    /// Whether a log is kept at all.
    pub enabled: bool,
}

impl Default for AofConfig {
    fn default() -> (r: Self)
        ensures
            r.path@ == "ferrumdb.aof"@,
            r.sync_policy == SyncPolicy::EverySecond,
            r.enabled,
    {
        AofConfig {
            path: String::from_str("ferrumdb.aof"),
            sync_policy: SyncPolicy::EverySecond,
            enabled: true,
        }
    }
}

} // verus!
