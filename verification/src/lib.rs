//! A persistent key/value store and the protocol of its server.
//!
//! - [`engines::kv`] is the log-structured store: an append-only log of JSON
//!   entries, an index from every live key to the span of its latest entry,
//!   replay of the log, and compaction. [`engines::replay`] says what a log
//!   holds, and [`engines::guarantees`] what the operations promise
//!   together.
//! - [`engines::shared`] puts the store behind one lock, so that many
//!   threads can share it, and keeps its log in a sink such as a file.
//! - [`engines::sled_store`] is the same contract on top of `sled`.
//! - [`message`] and [`server`] are the requests, the responses, and the
//!   way from the one to the other.
//! - [`thread_pool`] runs jobs on worker threads.
//! - [`selection`] ties a directory to the engine it was first used with.
//!
//! JSON is written and read by `serde_json`; [`json`] holds the calls and
//! says what is taken on trust of them.

pub mod engines;
pub mod entry;
pub mod error;
pub mod index;
pub mod json;
pub mod message;
pub mod selection;
pub mod server;
mod shared_ptr;
pub mod thread_pool;

pub use crate::engines::kv::KvStore;
pub use crate::engines::shared::SharedKvStore;
pub use crate::engines::sled_store::SledKvsStore;
pub use crate::engines::KvsEngine;
pub use crate::error::KvStoreError;
pub use crate::server::KvServer;
