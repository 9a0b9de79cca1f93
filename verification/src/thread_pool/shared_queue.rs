//! What the workers of a pool with one shared queue decide.
//!
//! The workers take messages from one queue. Whoever runs the workers
//! receives a message, asks [`next_job`] what to do with it, and runs the
//! job or leaves its loop. A worker keeps a [`ThreadSentinel`] while it
//! runs; when the worker ends, the sentinel says whether another worker is
//! to take its place. To tear the pool down one sends what
//! [`shutdown_messages`] returns, and then waits for the workers.

use crate::shared_ptr::another;
use std::sync::Arc;
use vstd::prelude::*;

verus! {

/// What travels through the queue of the pool.
pub enum ThreadPoolMessage<J> {
    /// A job to run.
    Job(J),
    /// The worker that takes this message stops.
    Shutdown,
}

/// Stands guard over one worker of a pool. It holds the queue that the
/// worker takes its messages from.
pub struct ThreadSentinel<Q> {
    queue: Arc<Q>,
}

impl<Q> ThreadSentinel<Q> {
    /// The queue of the worker.
    pub closed spec fn spec_queue(&self) -> Arc<Q> {
        self.queue
    }

    /// A sentinel for a worker on `queue`.
    pub fn new(queue: Arc<Q>) -> (out: Self)
        ensures
            out.spec_queue() == queue,
    {
        ThreadSentinel { queue }
    }

    /// The queue of the worker.
    pub fn queue(&self) -> (out: &Arc<Q>)
        ensures
            *out == self.spec_queue(),
    {
        &self.queue
    }

    /// What is to be done when the worker ends. Where it ends in a panic,
    /// a job has failed: the sentinel of a new worker on the same queue is
    /// returned, so that the pool does not shrink as jobs fail. Where it
    /// ends otherwise, it was told to stop, and nothing takes its place.
    pub fn replacement(&self, panicking: bool) -> (out: Option<ThreadSentinel<Q>>)
        ensures
            match out {
                Some(next) => panicking && next.spec_queue() == self.spec_queue(),
                None => !panicking,
            },
    {
        if panicking {
            Some(ThreadSentinel { queue: another(&self.queue) })
        } else {
            None
        }
    }
}

/// What a worker does with a message: it runs the job that is returned, or
/// stops where there is none.
pub fn next_job<J>(message: ThreadPoolMessage<J>) -> (out: Option<J>)
    ensures
        out == match message {
            ThreadPoolMessage::Job(job) => Some(job),
            ThreadPoolMessage::Shutdown => None,
        },
{
    match message {
        ThreadPoolMessage::Job(job) => Some(job),
        ThreadPoolMessage::Shutdown => None,
    }
}

/// The messages that stop a pool of `workers` workers: one shutdown for
/// each of them.
pub fn shutdown_messages<J>(workers: usize) -> (out: Vec<ThreadPoolMessage<J>>)
    ensures
        out@.len() == workers,
        forall|i: int| 0 <= i < out@.len() ==> out@[i] is Shutdown,
{
    let mut out: Vec<ThreadPoolMessage<J>> = Vec::new();
    let mut i: usize = 0;
    while i < workers
        invariant
            i <= workers,
            out@.len() == i,
            forall|j: int| 0 <= j < out@.len() ==> out@[j] is Shutdown,
        decreases workers - i,
    {
        out.push(ThreadPoolMessage::Shutdown);
        i += 1;
    }
    out
}

} // verus!
