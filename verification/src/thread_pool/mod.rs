//! Pools that run jobs on worker threads.

use crate::error::KvStoreError;
use vstd::prelude::*;

pub mod rayon_pool;
pub mod shared_queue;

verus! {

/// A pool that runs jobs on worker threads. A job is handed over and
/// forgotten: the caller neither waits for it nor sees what became of it.
pub trait WorkerPool {
    /// A pool with `threads` workers.
    ///
    /// Fails with `ThreadPoolError` where the workers cannot be started.
    fn new(threads: u32) -> (out: Result<Self, KvStoreError>) where Self: Sized;

    /// Hands `job` to the pool, which runs it once on one of its workers.
    fn spawn<F>(&self, job: F) where F: FnOnce() + Send + 'static
        requires
            call_requires(job, ()),
    ;
}

} // verus!
