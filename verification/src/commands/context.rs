//! What a command works on.

use vstd::prelude::*;
use vstd::string::StringExecFns;
use crate::aof::writer::AofWriter;
use crate::aof::writer::WriterView;
use crate::store::memory::MemoryStore;
use crate::store::memory::StoreView;

verus! {

/// What a command works on: the store, the log writer if a log is kept, and
/// the names of the platform that INFO reports.
pub struct CommandContext {
    /// The store.
    pub store: MemoryStore,
    /// The writer of the append-only log, if one is kept.
    pub aof_writer: Option<AofWriter>,
    /// The operating system's name.
    pub os: String,
    /// The processor architecture's name.
    pub arch: String,
}

/// What a `CommandContext` stands for.
pub ghost struct ContextView {
    pub store: StoreView,
    pub aof: Option<WriterView>,
    pub os: Seq<char>,
    pub arch: Seq<char>,
}

impl ContextView {
    /// The same context with another store.
    pub open spec fn with_store(self, store: StoreView) -> ContextView {
        ContextView { store, ..self }
    }
}

/// The writer that `w` stands for, if any.
pub open spec fn writer_view(w: Option<AofWriter>) -> Option<WriterView> {
    match w {
        Some(writer) => Some(writer@),
        None => None,
    }
}

impl View for CommandContext {
    type V = ContextView;

    open spec fn view(&self) -> ContextView {
        ContextView {
            store: self.store@,
            aof: writer_view(self.aof_writer),
            os: self.os@,
            arch: self.arch@,
        }
    }
}

impl CommandContext {
    /// A context with an empty store and no log.
    pub fn new() -> (r: Self)
        ensures
            r@ == (ContextView {
                store: Map::empty(),
                aof: None,
                os: "unknown"@,
                arch: "unknown"@,
            }),
    {
        Self::with_capacity(1024)
    }

    /// A context with an empty store and no log. The capacity is a hint.
    pub fn with_capacity(capacity: usize) -> (r: Self)
        ensures
            r@ == (ContextView {
                store: Map::empty(),
                aof: None,
                os: "unknown"@,
                arch: "unknown"@,
            }),
    {
        CommandContext {
            store: MemoryStore::with_capacity(capacity),
            aof_writer: None,
            os: String::from_str("unknown"),
            arch: String::from_str("unknown"),
        }
    }

    /// Hands the context the writer of its log.
    pub fn set_aof_writer(&mut self, writer: AofWriter)
        ensures
            final(self)@ == (ContextView { aof: Some(writer@), ..old(self)@ }),
    {
        self.aof_writer = Some(writer);
    }

    /// Tells the context the names of the platform it runs on.
    pub fn set_platform(&mut self, os: &str, arch: &str)
        ensures
            final(self)@ == (ContextView { os: os@, arch: arch@, ..old(self)@ }),
    {
        self.os = String::from_str(os);
        self.arch = String::from_str(arch);
    }
}

impl Default for CommandContext {
    fn default() -> (r: Self)
        ensures
            r@ == (ContextView {
                store: Map::empty(),
                aof: None,
                os: "unknown"@,
                arch: "unknown"@,
            }),
    {
        Self::new()
    }
}

} // verus!
