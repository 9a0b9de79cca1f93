//! Storage engines.

use crate::error::KvStoreError;
use vstd::prelude::*;

pub mod guarantees;
pub mod kv;
pub mod replay;
pub mod shared;
pub mod sled_store;

verus! {

/// A storage engine that can handle get, set and remove.
///
/// An engine is handed to many threads, so it can be cloned, and every
/// clone works on the same state: the methods take `&self`, and what one
/// call finds depends on the calls that other handles have made. Each
/// engine may say with its three specification functions what it promises
/// of a result; by default it promises nothing.
pub trait KvsEngine: Clone + Send + 'static {
    /// What the engine promises of the result of `set`.
    open spec fn set_result(
        &self,
        key: Seq<char>,
        value: Seq<char>,
        out: Result<(), KvStoreError>,
    ) -> bool {
        true
    }

    /// What the engine promises of the result of `get`.
    open spec fn get_result(
        &self,
        key: Seq<char>,
        out: Result<Option<String>, KvStoreError>,
    ) -> bool {
        true
    }

    /// What the engine promises of the result of `remove`.
    open spec fn remove_result(&self, key: Seq<char>, out: Result<(), KvStoreError>) -> bool {
        true
    }

    /// Sets `key` to `value`.
    fn set(&self, key: String, value: String) -> (out: Result<(), KvStoreError>)
        ensures
            self.set_result(key@, value@, out),
    ;

    /// The value of `key`, or `None` where it holds none.
    fn get(&self, key: String) -> (out: Result<Option<String>, KvStoreError>)
        ensures
            self.get_result(key@, out),
    ;

    /// Removes `key`; fails with `RemoveNonexistingKey` where it holds no
    /// value.
    fn remove(&self, key: String) -> (out: Result<(), KvStoreError>)
        ensures
            self.remove_result(key@, out),
    ;
}

} // verus!
