//! The pool that hands its jobs to the work-stealing scheduler of `rayon`.

use crate::error::KvStoreError;
use crate::thread_pool::WorkerPool;
use vstd::prelude::*;

verus! {

/// `rayon::ThreadPool`: a pool of worker threads with a work-stealing
/// scheduler.
#[verifier::external_type_specification]
#[verifier::external_body]
pub struct ExRayonThreadPool(rayon::ThreadPool);

/// Calls `rayon::ThreadPoolBuilder::new`, `num_threads` and `build`, which
/// start a pool with that many workers. Nothing is claimed of the result:
/// whether the workers start is up to the operating system.
#[verifier::external_body]
fn build_pool(threads: usize) -> (out: Result<rayon::ThreadPool, rayon::ThreadPoolBuildError>) {
    rayon::ThreadPoolBuilder::new().num_threads(threads).build()
}

/// Calls `rayon::ThreadPool::spawn`, which queues the job for one of the
/// workers of the pool. The job must be callable.
#[verifier::external_body]
fn spawn_in_pool<F>(pool: &rayon::ThreadPool, job: F) where F: FnOnce() + Send + 'static
    requires
        call_requires(job, ()),
{
    pool.spawn(job)
}

/// A pool on top of the scheduler of `rayon`.
pub struct RayonThreadPool {
    pool: rayon::ThreadPool,
}

impl RayonThreadPool {
    /// The pool of `rayon` that the jobs go to.
    pub closed spec fn pool(&self) -> rayon::ThreadPool {
        self.pool
    }

    /// What `new` makes of the answer of `rayon`: a pool on top of the one
    /// that was built, or `ThreadPoolError`.
    pub fn built(answer: Result<rayon::ThreadPool, rayon::ThreadPoolBuildError>) -> (out: Result<
        RayonThreadPool,
        KvStoreError,
    >)
        ensures
            match answer {
                Ok(pool) => out matches Ok(made) && made.pool() == pool,
                Err(_) => out matches Err(e) && e == KvStoreError::ThreadPoolError,
            },
    {
        match answer {
            Ok(pool) => Ok(RayonThreadPool { pool }),
            Err(e) => Err(KvStoreError::from(e)),
        }
    }
}

impl WorkerPool for RayonThreadPool {
    fn new(threads: u32) -> (out: Result<Self, KvStoreError>)
        ensures
            out matches Err(e) ==> e == KvStoreError::ThreadPoolError,
    {
        RayonThreadPool::built(build_pool(threads as usize))
    }

    fn spawn<F>(&self, job: F) where F: FnOnce() + Send + 'static {
        spawn_in_pool(&self.pool, job)
    }
}

} // verus!
