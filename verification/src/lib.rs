//! FerrumDB: an in-memory key-value store that speaks RESP2, shards its
//! keyspace and logs mutations to an append-only file.
//!
//! Every function in this crate is verified against the contract written on
//! it, except the few wrappers around other crates and the standard library,
//! whose contracts are stated and trusted.

pub mod aof;
pub mod cluster;
pub mod commands;
pub mod console;
pub mod dispatch;
pub mod hashing;
pub mod octets;
pub mod protocol;
pub mod store;

pub use cluster::ClusterManager;
pub use cluster::Shard;
pub use commands::Command;
pub use commands::CommandContext;
pub use protocol::RespError;
pub use protocol::RespValue;
pub use store::Entry;
pub use store::MemoryStore;
