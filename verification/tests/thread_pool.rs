use kvs::thread_pool::rayon_pool::RayonThreadPool;
use kvs::thread_pool::shared_queue::{
    next_job, shutdown_messages, ThreadPoolMessage, ThreadSentinel,
};
use kvs::thread_pool::WorkerPool;
use std::sync::{mpsc, Arc, Mutex};
use std::time::Duration;

#[test]
fn a_worker_runs_a_job_and_stops_on_shutdown() {
    assert_eq!(next_job(ThreadPoolMessage::Job(7)), Some(7));
    assert_eq!(next_job(ThreadPoolMessage::<u8>::Shutdown), None);
}

#[test]
fn a_pool_is_stopped_with_one_shutdown_for_each_worker() {
    let messages = shutdown_messages::<u8>(3);
    assert_eq!(messages.len(), 3);
    for message in messages {
        assert!(matches!(message, ThreadPoolMessage::Shutdown));
    }
    assert!(shutdown_messages::<u8>(0).is_empty());
}

#[test]
fn a_rayon_pool_runs_the_jobs_it_is_given() {
    let pool = match RayonThreadPool::new(2) {
        Ok(pool) => pool,
        Err(_) => panic!("the pool did not start"),
    };
    let (tx, rx) = mpsc::channel();
    for i in 0..8u32 {
        let tx = tx.clone();
        pool.spawn(move || {
            tx.send(i * 2).unwrap();
        });
    }
    let mut got = Vec::new();
    for _ in 0..8 {
        got.push(rx.recv_timeout(Duration::from_secs(10)).unwrap());
    }
    got.sort();
    assert_eq!(got, vec![0, 2, 4, 6, 8, 10, 12, 14]);
}

#[test]
fn a_pool_that_cannot_be_built_is_a_thread_pool_error() {
    // the global pool of rayon can be built once; the second attempt fails
    let first = rayon::ThreadPoolBuilder::new().num_threads(1).build_global();
    assert!(first.is_ok());
    let failure = rayon::ThreadPoolBuilder::new().num_threads(1).build_global().unwrap_err();
    assert!(matches!(
        RayonThreadPool::built(Err(failure)),
        Err(kvs::KvStoreError::ThreadPoolError)
    ));
    let failure = rayon::ThreadPoolBuilder::new().num_threads(1).build_global().unwrap_err();
    assert_eq!(kvs::KvStoreError::from(failure), kvs::KvStoreError::ThreadPoolError);
}

#[test]
fn a_pool_that_was_built_is_handed_on() {
    let built = rayon::ThreadPoolBuilder::new().num_threads(1).build();
    let pool = match RayonThreadPool::built(built) {
        Ok(pool) => pool,
        Err(_) => panic!("the pool did not start"),
    };
    let (tx, rx) = mpsc::channel();
    pool.spawn(move || tx.send(41 + 1).unwrap());
    assert_eq!(rx.recv_timeout(Duration::from_secs(10)), Ok(42));
}

#[test]
fn a_worker_that_panicked_is_replaced_on_the_same_queue() {
    let queue = Arc::new(Mutex::new(vec![1, 2, 3]));
    let sentinel = ThreadSentinel::new(Arc::clone(&queue));
    assert!(Arc::ptr_eq(sentinel.queue(), &queue));
    let next = match sentinel.replacement(true) {
        Some(next) => next,
        None => panic!("no worker takes the place of the one that panicked"),
    };
    assert!(Arc::ptr_eq(next.queue(), &queue));
    next.queue().lock().unwrap().push(4);
    assert_eq!(*queue.lock().unwrap(), vec![1, 2, 3, 4]);
}

#[test]
fn a_worker_that_was_told_to_stop_is_not_replaced() {
    let sentinel = ThreadSentinel::new(Arc::new(Mutex::new(0)));
    assert!(sentinel.replacement(false).is_none());
}
