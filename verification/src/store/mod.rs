//! The in-memory store: typed values, entries with expiry, and the map that
//! owns them.

pub mod bytemap;
pub mod clock;
pub mod entry;
pub mod memory;
pub mod value;

pub use bytemap::ByteMap;
pub use bytemap::ByteSet;
pub use clock::Clock;
pub use clock::Moment;
pub use entry::Entry;
pub use entry::EntryView;
pub use memory::MemoryStore;
pub use memory::StoreStats;
pub use value::Value;
pub use value::ValueView;
