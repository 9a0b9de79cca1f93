//! What the operations of the store guarantee together, proved from their
//! contracts.

use crate::engines::kv::KvStore;
use crate::engines::replay::lemma_replay_end;
use crate::engines::shared::{LogSink, Shared, SharedKvStore};
use crate::engines::KvsEngine;
use crate::error::KvStoreError;
use vstd::prelude::*;

verus! {

/// One call of `set` or `remove` with its result; `value` is `None` for a
/// `remove`.
pub struct Step {
    pub key: Seq<char>,
    pub value: Option<Seq<char>>,
    pub out: Result<(), KvStoreError>,
}

/// `post` is what the call `step` has left of `pre`.
pub open spec fn step_taken(pre: KvStore, post: KvStore, step: Step) -> bool {
    match step.value {
        Some(value) => KvStore::set_spec(pre, post, step.key, value, step.out),
        None => KvStore::remove_spec(pre, post, step.key, step.out),
    }
}

/// `states` are the states that a store goes through while the calls in
/// `steps` are made on it, one after the other, in whatever order the
/// callers have come to take their turns. Calls of `get` may stand anywhere
/// in between: they change nothing.
pub open spec fn run(states: Seq<KvStore>, steps: Seq<Step>) -> bool {
    &&& states.len() == steps.len() + 1
    &&& forall|i: int|
        0 <= i < steps.len() ==> step_taken(states[i], states[i + 1], #[trigger] steps[i])
}

/// After `set(key, value)`, `get(key)` returns `value`.
pub proof fn lemma_get_after_set(
    pre: KvStore,
    post: KvStore,
    key: Seq<char>,
    value: Seq<char>,
    set_out: Result<(), KvStoreError>,
    get_out: Result<Option<String>, KvStoreError>,
)
    requires
        KvStore::set_spec(pre, post, key, value, set_out),
        post.get_spec(key, get_out),
    ensures
        set_out is Ok,
        get_out matches Ok(Some(found)) && found@ == value,
{
}

/// Behind the lock as well: after `set(key, value)` has succeeded on the
/// state that a shared store guards, `get(key)` returns `value`, whatever
/// the sink of the log has answered.
pub proof fn lemma_shared_get_after_set<S: LogSink>(
    pre: Shared<S>,
    post: Shared<S>,
    key: Seq<char>,
    value: Seq<char>,
    set_out: Result<(), KvStoreError>,
    get_out: Result<Option<String>, KvStoreError>,
)
    requires
        Shared::set_spec(pre, post, key, value, set_out),
        set_out is Ok,
        post.store().get_spec(key, get_out),
    ensures
        get_out matches Ok(Some(found)) && found@ == value,
{
}

/// Behind the lock as well: after `remove(key)` has succeeded on the state
/// that a shared store guards, `get(key)` returns `None`.
pub proof fn lemma_shared_get_after_remove<S: LogSink>(
    pre: Shared<S>,
    post: Shared<S>,
    key: Seq<char>,
    remove_out: Result<(), KvStoreError>,
    get_out: Result<Option<String>, KvStoreError>,
)
    requires
        Shared::remove_spec(pre, post, key, remove_out),
        remove_out is Ok,
        post.store().get_spec(key, get_out),
    ensures
        get_out matches Ok(None),
{
}

/// With a sink that never fails, the state that a shared store guards goes
/// through `set` and `remove` just as a store of its own does.
pub proof fn lemma_reliable_sink<S: LogSink>(
    pre: Shared<S>,
    post: Shared<S>,
    key: Seq<char>,
    value: Seq<char>,
    out: Result<(), KvStoreError>,
)
    requires
        S::reliable(),
    ensures
        Shared::set_spec(pre, post, key, value, out) ==> KvStore::set_spec(
            pre.store(),
            post.store(),
            key,
            value,
            out,
        ),
        Shared::remove_spec(pre, post, key, out) ==> KvStore::remove_spec(
            pre.store(),
            post.store(),
            key,
            out,
        ),
{
}

/// A sink that keeps stays in step with the store: where it held the log
/// of the store before a `set` or a `remove`, it holds the log of the store
/// afterwards, whether the call has succeeded or not. Every entry that the
/// store records is in the log that is kept, and a compaction replaces
/// that log.
pub proof fn lemma_sink_in_step<S: LogSink>(
    pre: Shared<S>,
    post: Shared<S>,
    key: Seq<char>,
    value: Seq<char>,
    out: Result<(), KvStoreError>,
)
    requires
        S::keeps(),
        pre.in_step(),
        Shared::set_spec(pre, post, key, value, out) || Shared::remove_spec(pre, post, key, out),
    ensures
        post.in_step(),
{
}

/// A sink that keeps holds the log of a store that was opened on the log
/// that the sink held.
pub proof fn lemma_sink_in_step_after_open<S: LogSink>(
    log: Seq<u8>,
    sink: S,
    out: Result<Shared<S>, KvStoreError>,
)
    requires
        S::keeps(),
        sink.kept() == log,
        Shared::open_spec(log, sink, out),
    ensures
        out matches Ok(shared) ==> shared.in_step(),
{
    lemma_replay_end(log, 0, Map::empty());
    assert(log.subrange(0, log.len() as int) =~= log);
}

/// A call of `set` or `remove` leaves every other key as it was, whether
/// the call succeeds or not.
pub proof fn lemma_step_keeps_other_keys(pre: KvStore, post: KvStore, step: Step, other: Seq<char>)
    requires
        step_taken(pre, post, step),
        other != step.key,
    ensures
        post@.contains_key(other) == pre@.contains_key(other),
        pre@.contains_key(other) ==> post@[other] == pre@[other],
{
}

/// In a run, what a key holds stays the same over calls for other keys.
proof fn lemma_key_kept(
    states: Seq<KvStore>,
    steps: Seq<Step>,
    key: Seq<char>,
    from: int,
    upto: int,
)
    requires
        run(states, steps),
        0 <= from <= upto <= steps.len(),
        forall|i: int| from <= i < steps.len() ==> steps[i].key != key,
    ensures
        states[upto]@.contains_key(key) == states[from]@.contains_key(key),
        states[from]@.contains_key(key) ==> states[upto]@[key] == states[from]@[key],
    decreases upto - from,
{
    if from < upto {
        lemma_key_kept(states, steps, key, from, upto - 1);
        lemma_step_keeps_other_keys(states[upto - 1], states[upto], steps[upto - 1], key);
    }
}

/// For every run of calls of `set`, `get` and `remove` on a store:
/// `get(key)` returns the value of the last `set` for that key, whatever
/// was done for other keys since. Callers that keep to keys of their own
/// therefore find what they would find if they were alone.
pub proof fn lemma_get_after_run(
    states: Seq<KvStore>,
    steps: Seq<Step>,
    at: int,
    get_out: Result<Option<String>, KvStoreError>,
)
    requires
        run(states, steps),
        0 <= at < steps.len(),
        steps[at].value is Some,
        forall|i: int| at < i < steps.len() ==> steps[i].key != steps[at].key,
        states.last().get_spec(steps[at].key, get_out),
    ensures
        get_out matches Ok(Some(found)) && found@ == steps[at].value.unwrap(),
{
    lemma_key_kept(states, steps, steps[at].key, at + 1, steps.len() as int);
}

/// For every run of calls of `set`, `get` and `remove` on a store:
/// `get(key)` returns `None` after a `remove` for that key, whatever was
/// done for other keys since.
pub proof fn lemma_get_after_run_removed(
    states: Seq<KvStore>,
    steps: Seq<Step>,
    at: int,
    get_out: Result<Option<String>, KvStoreError>,
)
    requires
        run(states, steps),
        0 <= at < steps.len(),
        steps[at].value is None,
        forall|i: int| at < i < steps.len() ==> steps[i].key != steps[at].key,
        states.last().get_spec(steps[at].key, get_out),
    ensures
        get_out matches Ok(None),
{
    lemma_key_kept(states, steps, steps[at].key, at + 1, steps.len() as int);
}

/// After `remove(key)`, `get(key)` returns `None`, whether the removal has
/// found the key or not.
pub proof fn lemma_get_after_remove(
    pre: KvStore,
    post: KvStore,
    key: Seq<char>,
    remove_out: Result<(), KvStoreError>,
    get_out: Result<Option<String>, KvStoreError>,
)
    requires
        KvStore::remove_spec(pre, post, key, remove_out),
        post.get_spec(key, get_out),
    ensures
        get_out matches Ok(None),
{
}

/// A second `remove(key)` fails with `RemoveNonexistingKey` and changes
/// nothing.
pub proof fn lemma_remove_twice(
    pre: KvStore,
    mid: KvStore,
    post: KvStore,
    key: Seq<char>,
    first: Result<(), KvStoreError>,
    second: Result<(), KvStoreError>,
)
    requires
        KvStore::remove_spec(pre, mid, key, first),
        KvStore::remove_spec(mid, post, key, second),
    ensures
        second matches Err(e) && e == KvStoreError::RemoveNonexistingKey,
        post == mid,
{
}

/// Opening the log of a store again succeeds and gives a store with the
/// same log, the same index and the same value for every key.
pub proof fn lemma_reopen_same_store(store: KvStore, out: Result<KvStore, KvStoreError>)
    requires
        store.wf(),
        KvStore::open_spec(store.spec_log(), out),
    ensures
        out matches Ok(again) && {
            &&& again.wf()
            &&& again.spec_log() == store.spec_log()
            &&& again.spec_index() == store.spec_index()
            &&& again@ == store@
        },
{
    store.lemma_reopen();
    store.lemma_view();
    let again = out->Ok_0;
    again.lemma_view();
}

/// A compaction changes the result of no `get`, whether the policy has
/// asked for it or not.
pub proof fn lemma_compaction_keeps_values(
    pre: KvStore,
    post: KvStore,
    out: Result<(), KvStoreError>,
    key: Seq<char>,
    get_out: Result<Option<String>, KvStoreError>,
)
    requires
        KvStore::compact_spec(pre, post, out) || KvStore::rewrite_spec(pre, post, out),
        pre.get_spec(key, get_out),
    ensures
        post.get_spec(key, get_out),
{
}

/// Two stores that hold the same values, such as a store before and after
/// a compaction, answer `get` alike.
pub proof fn lemma_same_values_same_get(
    one: KvStore,
    two: KvStore,
    key: Seq<char>,
    get_out: Result<Option<String>, KvStoreError>,
)
    requires
        one@ == two@,
        one.get_spec(key, get_out),
    ensures
        two.get_spec(key, get_out),
{
}

/// Two stores that hold the same values hold the same values after the same
/// `set`, and the call succeeds on both.
pub proof fn lemma_same_values_same_set(
    one: KvStore,
    two: KvStore,
    one_after: KvStore,
    two_after: KvStore,
    key: Seq<char>,
    value: Seq<char>,
    one_out: Result<(), KvStoreError>,
    two_out: Result<(), KvStoreError>,
)
    requires
        one@ == two@,
        KvStore::set_spec(one, one_after, key, value, one_out),
        KvStore::set_spec(two, two_after, key, value, two_out),
    ensures
        one_after@ == two_after@,
        one_out is Ok,
        two_out is Ok,
{
}

/// Two stores that hold the same values hold the same values after the same
/// `remove`, and the call succeeds on both or fails with
/// `RemoveNonexistingKey` on both.
pub proof fn lemma_same_values_same_remove(
    one: KvStore,
    two: KvStore,
    one_after: KvStore,
    two_after: KvStore,
    key: Seq<char>,
    one_out: Result<(), KvStoreError>,
    two_out: Result<(), KvStoreError>,
)
    requires
        one@ == two@,
        KvStore::remove_spec(one, one_after, key, one_out),
        KvStore::remove_spec(two, two_after, key, two_out),
    ensures
        one_after@ == two_after@,
        one_out is Ok <==> two_out is Ok,
        one_out matches Err(e) ==> e == KvStoreError::RemoveNonexistingKey,
        two_out matches Err(e) ==> e == KvStoreError::RemoveNonexistingKey,
{
}

/// What holds of every `set` through a handle on a shared store, whatever
/// the other handles do: with a reliable sink it succeeds.
pub proof fn lemma_handle_set<S: LogSink + Send + Sync + 'static>(
    handle: SharedKvStore<S>,
    key: Seq<char>,
    value: Seq<char>,
    out: Result<(), KvStoreError>,
)
    requires
        handle.set_result(key, value, out),
    ensures
        S::reliable() ==> out is Ok,
{
}

/// What holds of every `get` through a handle on a shared store: it does
/// not fail, and a value that it returns is the value that the key held in
/// a state of the store.
pub proof fn lemma_handle_get<S: LogSink + Send + Sync + 'static>(
    handle: SharedKvStore<S>,
    key: Seq<char>,
    out: Result<Option<String>, KvStoreError>,
)
    requires
        handle.get_result(key, out),
    ensures
        out is Ok,
        out matches Ok(Some(value)) ==> exists|store: KvStore|
            store.wf() && #[trigger] store@.contains_key(key) && store@[key] == value@,
{
    let found = choose|found: Shared<S>|
        handle.lock().inv(found) && #[trigger] found.store().get_spec(key, out);
    if out matches Ok(Some(value)) {
        assert(found.store()@.contains_key(key));
    }
}

/// What holds of every `remove` through a handle on a shared store: with a
/// reliable sink it succeeds or fails with `RemoveNonexistingKey`.
pub proof fn lemma_handle_remove<S: LogSink + Send + Sync + 'static>(
    handle: SharedKvStore<S>,
    key: Seq<char>,
    out: Result<(), KvStoreError>,
)
    requires
        handle.remove_result(key, out),
    ensures
        S::reliable() ==> (out matches Err(e) ==> e == KvStoreError::RemoveNonexistingKey),
{
}

} // verus!
