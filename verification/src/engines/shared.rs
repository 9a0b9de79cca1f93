//! The store behind one lock, with its log kept for good in a sink.
//!
//! [`SharedKvStore`] is a handle that can be cloned and handed to many
//! threads. Every clone works on the same [`Shared`] state, the store and
//! the sink of its log, which one lock guards as a unit: each operation
//! holds the lock from its first step to its last, a compaction included.

use crate::engines::kv::{compaction_due, KvStore};
use crate::engines::replay::{lemma_replay_end, replay};
use crate::engines::KvsEngine;
use crate::entry::{entry_json, entry_members, Entry, EntryView};
use crate::error::KvStoreError;
use crate::json::reads_back;
use crate::shared_ptr::another;
use std::sync::Arc;
use vstd::prelude::*;
use vstd::rwlock::{RwLock, RwLockPredicate};
use vstd::slice::slice_to_vec;

verus! {

/// Where the log of a store is kept for good, such as a file.
///
/// The store hands every entry to the sink before it records the entry
/// itself, so that the index never points at bytes that were not kept.
pub trait LogSink {
    /// Whether the sink never fails. A sink that says so is held to it.
    open spec fn reliable() -> bool {
        false
    }

    /// Whether [`LogSink::kept`] tells what the sink holds. A sink that
    /// says so is held to it: what it holds grows by the bytes of every
    /// `append` that succeeds, is the log of every `replace` that succeeds,
    /// and stays as it is where a call fails.
    open spec fn keeps() -> bool {
        false
    }

    /// The log that the sink holds. It means something only for a sink
    /// that keeps.
    open spec fn kept(&self) -> Seq<u8> {
        Seq::empty()
    }

    /// Appends `bytes` to the end of the log that is kept.
    fn append(&mut self, bytes: &[u8]) -> (out: Result<(), KvStoreError>)
        ensures
            Self::reliable() ==> out is Ok,
            Self::keeps() ==> final(self).kept() == if out is Ok {
                old(self).kept() + bytes@
            } else {
                old(self).kept()
            },
    ;

    /// Puts `log` in the place of the log that is kept, all at once: who
    /// reads the log finds the old one or the new one, never a part.
    fn replace(&mut self, log: &[u8]) -> (out: Result<(), KvStoreError>)
        ensures
            Self::reliable() ==> out is Ok,
            Self::keeps() ==> final(self).kept() == if out is Ok {
                log@
            } else {
                old(self).kept()
            },
    ;
}

/// A sink that keeps nothing and never fails, for a store that lives in
/// memory only.
#[derive(Debug, Clone, Copy)]
pub struct NoSink;

impl LogSink for NoSink {
    open spec fn reliable() -> bool {
        true
    }

    fn append(&mut self, bytes: &[u8]) -> (out: Result<(), KvStoreError>) {
        Ok(())
    }

    fn replace(&mut self, log: &[u8]) -> (out: Result<(), KvStoreError>) {
        Ok(())
    }
}

/// A sink that keeps the log in memory and never fails.
pub struct MemorySink {
    log: Vec<u8>,
}

impl MemorySink {
    /// A sink that holds an empty log.
    pub fn new() -> (out: Self)
        ensures
            out.kept() == Seq::<u8>::empty(),
    {
        MemorySink { log: Vec::new() }
    }

    /// A sink that holds `log`.
    pub fn holding(log: Vec<u8>) -> (out: Self)
        ensures
            out.kept() == log@,
    {
        MemorySink { log }
    }

    /// The log that the sink holds.
    pub fn log(&self) -> (out: &Vec<u8>)
        ensures
            out@ == self.kept(),
    {
        &self.log
    }
}

impl LogSink for MemorySink {
    open spec fn reliable() -> bool {
        true
    }

    open spec fn keeps() -> bool {
        true
    }

    closed spec fn kept(&self) -> Seq<u8> {
        self.log@
    }

    fn append(&mut self, bytes: &[u8]) -> (out: Result<(), KvStoreError>) {
        let mut copy = slice_to_vec(bytes);
        self.log.append(&mut copy);
        Ok(())
    }

    fn replace(&mut self, log: &[u8]) -> (out: Result<(), KvStoreError>) {
        self.log = slice_to_vec(log);
        Ok(())
    }
}

/// A store with the sink of its log: what the lock of a [`SharedKvStore`]
/// guards.
pub struct Shared<S> {
    store: KvStore,
    sink: S,
}

impl<S: LogSink> Shared<S> {
    /// The store.
    pub closed spec fn store(&self) -> KvStore {
        self.store
    }

    /// The log that the sink holds, where the sink keeps.
    pub closed spec fn sink_log(&self) -> Seq<u8> {
        self.sink.kept()
    }

    /// The sink holds the log of the store.
    pub open spec fn in_step(&self) -> bool {
        self.sink_log() == self.store().spec_log()
    }

    /// What a `set` or a `remove` leaves behind that has an entry with the
    /// bytes `bytes` to write and makes the store stand for `view`.
    ///
    /// Where it succeeds, and wherever the sink is reliable, the store is
    /// as [`KvStore::written`] says. A sink that keeps then holds what it
    /// held with the bytes behind it, or the rewritten log where a
    /// compaction was due.
    ///
    /// Where it fails, the sink has failed. Either nothing was written: the
    /// store and what the sink holds are as they were. Or the entry was
    /// written, to the sink and then to the store, and only the sink's
    /// taking of the compacted log has failed: the store is as it was after
    /// the append.
    pub open spec fn outcome(
        pre: Shared<S>,
        post: Shared<S>,
        entry: EntryView,
        view: Map<Seq<char>, Seq<char>>,
        bytes: Seq<u8>,
        out: Result<(), KvStoreError>,
    ) -> bool {
        let due = compaction_due(view.dom().len(), pre.store().spec_total() + 1);
        &&& out is Ok || S::reliable() ==> KvStore::written(
            pre.store(),
            post.store(),
            view,
            bytes,
            out,
        )
        &&& out is Ok && S::keeps() ==> post.sink_log() == if due {
            post.store().spec_log()
        } else {
            pre.sink_log() + bytes
        }
        &&& out is Err ==> {
            ||| {
                &&& post.store() == pre.store()
                &&& S::keeps() ==> post.sink_log() == pre.sink_log()
            }
            ||| {
                &&& due
                &&& KvStore::appended(pre.store(), post.store(), entry, bytes)
                &&& S::keeps() ==> post.sink_log() == pre.sink_log() + bytes
            }
        }
    }

    /// What `set` does: [`Shared::outcome`] for the entry that sets the
    /// key. With a reliable sink this is what [`KvStore::set_spec`] says of
    /// the store.
    pub open spec fn set_spec(
        pre: Shared<S>,
        post: Shared<S>,
        key: Seq<char>,
        value: Seq<char>,
        out: Result<(), KvStoreError>,
    ) -> bool {
        let entry = EntryView { key, value: Some(value) };
        Shared::outcome(pre, post, entry, pre.store()@.insert(key, value), entry_json(entry), out)
    }

    /// What `remove` does. Where the key holds no value it fails with
    /// `RemoveNonexistingKey`, changes nothing and hands nothing to the
    /// sink. Otherwise it is [`Shared::outcome`] for the tombstone of the
    /// key. With a reliable sink this is what [`KvStore::remove_spec`] says
    /// of the store.
    pub open spec fn remove_spec(
        pre: Shared<S>,
        post: Shared<S>,
        key: Seq<char>,
        out: Result<(), KvStoreError>,
    ) -> bool {
        let entry = EntryView { key, value: None };
        if !pre.store()@.contains_key(key) {
            &&& out matches Err(e) && e == KvStoreError::RemoveNonexistingKey
            &&& post == pre
        } else {
            Shared::outcome(pre, post, entry, pre.store()@.remove(key), entry_json(entry), out)
        }
    }

    /// What `open` returns for a log and the sink that holds it. Where an
    /// entry of the log is malformed it is `SerdeError`. Otherwise the
    /// store is what [`KvStore::open_spec`] says. Where bytes behind the
    /// last entry were dropped, the shorter log was handed to the sink,
    /// which then holds it if it keeps; where none were dropped the sink
    /// was not asked. The call fails only where the sink has failed.
    pub open spec fn open_spec(
        log: Seq<u8>,
        sink: S,
        out: Result<Shared<S>, KvStoreError>,
    ) -> bool {
        match replay(log) {
            Some((index, end)) => {
                &&& end == log.len() || S::reliable() ==> out is Ok
                &&& out matches Ok(shared) ==> {
                    &&& KvStore::open_spec(log, Ok::<KvStore, KvStoreError>(shared.store()))
                    &&& S::keeps() ==> shared.sink_log() == if end < log.len() {
                        shared.store().spec_log()
                    } else {
                        sink.kept()
                    }
                }
            },
            None => out matches Err(e) && e == KvStoreError::SerdeError,
        }
    }

    /// A store with the sink that keeps its log.
    pub fn new(store: KvStore, sink: S) -> (out: Self)
        ensures
            out.store() == store,
            out.sink_log() == sink.kept(),
    {
        Shared { store, sink }
    }

    /// Opens a store on the bytes of its log, as [`KvStore::open`] does,
    /// and hands the log back to the sink where bytes behind the last entry
    /// were dropped from it.
    ///
    /// Fails with `SerdeError` exactly where an entry of the log is
    /// malformed, and with the error of the sink where the sink fails.
    pub fn open(log: Vec<u8>, sink: S) -> (out: Result<Shared<S>, KvStoreError>)
        ensures
            Shared::<S>::open_spec(log@, sink, out),
            out matches Ok(shared) ==> shared.store().wf(),
    {
        let given = log.len();
        let mut sink = sink;
        proof {
            lemma_replay_end(log@, 0, Map::empty());
        }
        let store = match KvStore::open(log) {
            Ok(store) => store,
            Err(e) => {
                return Err(e);
            },
        };
        if store.log().len() < given {
            match sink.replace(store.log().as_slice()) {
                Ok(_) => {},
                Err(e) => {
                    return Err(e);
                },
            }
        }
        Ok(Shared { store, sink })
    }

    /// The sink of the log.
    pub fn sink(&self) -> (out: &S)
        ensures
            out.kept() == self.sink_log(),
    {
        &self.sink
    }

    /// The bytes of the log of the store.
    pub fn log(&self) -> (out: &Vec<u8>)
        ensures
            out@ == self.store().spec_log(),
    {
        self.store.log()
    }

    /// Hands an entry to the sink, records it in the store, and compacts
    /// the log where the policy asks for it. The compacted log goes to the
    /// sink before the store takes it over.
    fn write(&mut self, entry: Entry, bytes: Vec<u8>) -> (out: Result<(), KvStoreError>)
        requires
            old(self).store.wf(),
            reads_back(entry_members(entry@), bytes@),
        ensures
            final(self).store.wf(),
            Shared::outcome(
                *old(self),
                *final(self),
                entry@,
                match entry@.value {
                    Some(value) => old(self).store@.insert(entry@.key, value),
                    None => old(self).store@.remove(entry@.key),
                },
                bytes@,
                out,
            ),
    {
        match self.sink.append(bytes.as_slice()) {
            Ok(_) => {},
            Err(e) => {
                return Err(e);
            },
        }
        self.store.append_entry(entry, bytes);
        if self.store.needs_compaction() {
            let next = match self.store.compacted() {
                Ok(next) => next,
                Err(e) => {
                    return Err(e);
                },
            };
            match self.sink.replace(next.log().as_slice()) {
                Ok(_) => {},
                Err(e) => {
                    return Err(e);
                },
            }
            self.store = next;
        }
        Ok(())
    }

    /// Sets `key` to `value`. The entry goes to the sink first and is
    /// recorded in the store only where the sink has kept it.
    pub fn set(&mut self, key: String, value: String) -> (out: Result<(), KvStoreError>)
        requires
            old(self).store().wf(),
        ensures
            final(self).store().wf(),
            Shared::set_spec(*old(self), *final(self), key@, value@, out),
    {
        let entry = Entry { key, value: Some(value) };
        match entry.encode() {
            Ok(bytes) => self.write(entry, bytes),
            Err(e) => Err(e),
        }
    }

    /// The value of `key`, or `None` where the key holds none.
    pub fn get(&self, key: String) -> (out: Result<Option<String>, KvStoreError>)
        requires
            self.store().wf(),
        ensures
            self.store().get_spec(key@, out),
    {
        self.store.get(key)
    }

    /// Removes `key`. The tombstone goes to the sink first and is recorded
    /// in the store only where the sink has kept it.
    pub fn remove(&mut self, key: String) -> (out: Result<(), KvStoreError>)
        requires
            old(self).store().wf(),
        ensures
            final(self).store().wf(),
            Shared::remove_spec(*old(self), *final(self), key@, out),
    {
        if !self.store.contains(&key) {
            return Err(KvStoreError::RemoveNonexistingKey);
        }
        let entry = Entry { key, value: None };
        match entry.encode() {
            Ok(bytes) => self.write(entry, bytes),
            Err(e) => Err(e),
        }
    }
}

/// What the lock of a [`SharedKvStore`] holds at all times: a store that
/// meets its invariant.
pub struct Guarded;

impl<S: LogSink> RwLockPredicate<Shared<S>> for Guarded {
    open spec fn inv(self, shared: Shared<S>) -> bool {
        shared.store().wf()
    }
}

/// A handle on a store that many threads share. Cloning it is cheap and
/// gives another handle on the same store.
pub struct SharedKvStore<S: LogSink> {
    shared: Arc<RwLock<Shared<S>, Guarded>>,
    first: Ghost<Shared<S>>,
}

impl<S: LogSink> SharedKvStore<S> {
    /// The lock that the handle points to, with the state that it guards.
    pub closed spec fn lock(&self) -> RwLock<Shared<S>, Guarded> {
        *self.shared
    }

    /// The state that the lock was made with: what the first call through
    /// a handle finds, unless another handle has come before it.
    pub closed spec fn first(&self) -> Shared<S> {
        self.first@
    }

    /// A handle on a lock that guards `shared`.
    pub fn guarding(shared: Shared<S>) -> (out: Self)
        requires
            shared.store().wf(),
        ensures
            out.first() == shared,
    {
        let first = Ghost(shared);
        SharedKvStore { shared: Arc::new(RwLock::new(shared, Ghost(Guarded))), first }
    }

    /// A handle on `store`, whose log is kept by `sink`.
    pub fn new(store: KvStore, sink: S) -> (out: Self)
        requires
            store.wf(),
        ensures
            out.first().store() == store,
            out.first().sink_log() == sink.kept(),
    {
        SharedKvStore::guarding(Shared::new(store, sink))
    }

    /// Opens a store on the bytes of its log, as [`Shared::open`] does,
    /// and puts it behind a lock.
    ///
    /// Fails with `SerdeError` exactly where an entry of the log is
    /// malformed, and with the error of the sink where the sink fails.
    pub fn open(log: Vec<u8>, sink: S) -> (out: Result<Self, KvStoreError>)
        ensures
            match out {
                Ok(handle) => Shared::<S>::open_spec(
                    log@,
                    sink,
                    Ok::<Shared<S>, KvStoreError>(handle.first()),
                ),
                Err(e) => Shared::<S>::open_spec(log@, sink, Err::<Shared<S>, KvStoreError>(e)),
            },
    {
        match Shared::open(log, sink) {
            Ok(shared) => Ok(SharedKvStore::guarding(shared)),
            Err(e) => Err(e),
        }
    }
}

impl<S: LogSink> Clone for SharedKvStore<S> {
    /// Another handle on the same lock, and so on the same store.
    fn clone(&self) -> (out: Self)
        ensures
            out.lock() == self.lock(),
            out.first() == self.first(),
    {
        SharedKvStore { shared: another(&self.shared), first: Ghost(self.first@) }
    }
}

impl<S: LogSink + Send + Sync + 'static> KvsEngine for SharedKvStore<S> {
    /// The call is a `set` on a state that the lock admits: it takes the
    /// lock, finds some state `pre` there, does to it what
    /// [`Shared::set_spec`] says, and leaves `post` behind.
    open spec fn set_result(
        &self,
        key: Seq<char>,
        value: Seq<char>,
        out: Result<(), KvStoreError>,
    ) -> bool {
        exists|pre: Shared<S>, post: Shared<S>|
            {
                &&& self.lock().inv(pre)
                &&& self.lock().inv(post)
                &&& #[trigger] Shared::set_spec(pre, post, key, value, out)
            }
    }

    /// The call is a `get` on a state that the lock admits: it takes the
    /// lock, finds some state there, and returns what
    /// [`KvStore::get_spec`] says of it.
    open spec fn get_result(
        &self,
        key: Seq<char>,
        out: Result<Option<String>, KvStoreError>,
    ) -> bool {
        exists|found: Shared<S>|
            self.lock().inv(found) && #[trigger] found.store().get_spec(key, out)
    }

    /// The call is a `remove` on a state that the lock admits: it takes
    /// the lock, finds some state `pre` there, does to it what
    /// [`Shared::remove_spec`] says, and leaves `post` behind.
    open spec fn remove_result(&self, key: Seq<char>, out: Result<(), KvStoreError>) -> bool {
        exists|pre: Shared<S>, post: Shared<S>|
            {
                &&& self.lock().inv(pre)
                &&& self.lock().inv(post)
                &&& #[trigger] Shared::remove_spec(pre, post, key, out)
            }
    }

    fn set(&self, key: String, value: String) -> (out: Result<(), KvStoreError>) {
        let ghost name = key@;
        let ghost text = value@;
        let (mut shared, handle) = self.shared.acquire_write();
        let ghost pre = shared;
        let out = shared.set(key, value);
        proof {
            assert(Shared::set_spec(pre, shared, name, text, out));
        }
        handle.release_write(shared);
        out
    }

    fn get(&self, key: String) -> (out: Result<Option<String>, KvStoreError>) {
        let ghost name = key@;
        let (shared, handle) = self.shared.acquire_write();
        let out = shared.get(key);
        proof {
            assert(shared.store().get_spec(name, out));
        }
        handle.release_write(shared);
        out
    }

    fn remove(&self, key: String) -> (out: Result<(), KvStoreError>) {
        let ghost name = key@;
        let (mut shared, handle) = self.shared.acquire_write();
        let ghost pre = shared;
        let out = shared.remove(key);
        proof {
            assert(Shared::remove_spec(pre, shared, name, out));
        }
        handle.release_write(shared);
        out
    }
}

} // verus!
