//! The log-structured store: an append-only log of JSON entries, an index
//! from every live key to the span of its latest entry, and compaction.
//!
//! The store works on the image of its log in memory and never touches a
//! file. [`crate::engines::shared::SharedKvStore`] keeps a file in step
//! with it.

use crate::engines::replay::{
    apply_entry, holds, index_of, lemma_log_of_len, lemma_log_of_push, lemma_replay_log_of,
    log_of, replay, replay_from, segments_wf, store_view, value_at, Segment,
};
use crate::entry::{
    entry_json, entry_members, json_entry, lemma_members_of_entry, Entry, EntryView,
};
use crate::error::KvStoreError;
use crate::index::{
    distinct_keys, lemma_slots_map_contains, lemma_slots_map_value, slots_map, EntryPos, Index,
};
use crate::json::{json_stream_head, members_of, read_stream_head, reads_back};
use vstd::prelude::*;

verus! {

/// Whether the log is due for compaction: fewer than four in ten of the
/// entries appended since the index was last rebuilt are live.
pub open spec fn compaction_due(live: nat, total: nat) -> bool {
    5 * live < 2 * total
}

/// Decides whether the log is due for compaction.
pub fn is_compaction_due(live: usize, total: usize) -> (out: bool)
    ensures
        out == compaction_due(live as nat, total as nat),
{
    (live as u128) * 5 < (total as u128) * 2
}

/// Appends `bytes` to `log` and returns the span that they take there.
pub fn append_file(log: &mut Vec<u8>, bytes: Vec<u8>) -> (out: EntryPos)
    ensures
        final(log)@ == old(log)@ + bytes@,
        out.offset == old(log)@.len(),
        out.size == bytes@.len(),
{
    let mut bytes = bytes;
    let offset = log.len();
    let size = bytes.len();
    log.append(&mut bytes);
    EntryPos { offset, size }
}

/// Reads the entry in the span `pos` of `log`.
///
/// Fails with `SerdeError` exactly where the span does not lie within the
/// log or does not hold one well-formed entry.
pub fn deserialize(log: &Vec<u8>, pos: EntryPos) -> (out: Result<Entry, KvStoreError>)
    ensures
        match out {
            Ok(entry) => pos.offset + pos.size <= log@.len() && json_entry(
                log@.subrange(pos.offset as int, pos.offset + pos.size),
            ) == Some(entry@),
            Err(e) => e == KvStoreError::SerdeError && (pos.offset + pos.size > log@.len()
                || json_entry(log@.subrange(pos.offset as int, pos.offset + pos.size)) is None),
        },
{
    if pos.offset > log.len() || pos.size > log.len() - pos.offset {
        return Err(KvStoreError::SerdeError);
    }
    let span = vstd::slice::slice_subrange(log.as_slice(), pos.offset, pos.offset + pos.size);
    Entry::decode(span)
}

/// A log-structured key/value store.
pub struct KvStore {
    log: Vec<u8>,
    index: Index,
    total: usize,
    segments: Ghost<Seq<Segment>>,
}

impl View for KvStore {
    type V = Map<Seq<char>, Seq<char>>;

    /// The value of every live key.
    closed spec fn view(&self) -> Map<Seq<char>, Seq<char>> {
        store_view(self.log@, self.index@)
    }
}

impl KvStore {
    /// The invariant of the store. The log is a concatenation of entries;
    /// the index is what replaying them gives; every span in the index holds
    /// an entry that sets the key it is recorded for; and the counter does
    /// not exceed the number of entries in the log.
    pub closed spec fn wf(&self) -> bool {
        &&& self.index.wf()
        &&& segments_wf(self.segments@)
        &&& self.log@ == log_of(self.segments@)
        &&& self.index@ == index_of(self.segments@)
        &&& forall|key: Seq<char>| #[trigger]
            self.index@.contains_key(key) ==> holds(self.log@, key, self.index@[key])
        &&& self.total <= self.segments@.len()
    }

    /// The bytes of the log.
    pub closed spec fn spec_log(&self) -> Seq<u8> {
        self.log@
    }

    /// The span recorded for every live key.
    pub closed spec fn spec_index(&self) -> Map<Seq<char>, EntryPos> {
        self.index@
    }

    /// The number of entries appended since the index was last rebuilt.
    pub closed spec fn spec_total(&self) -> nat {
        self.total as nat
    }

    /// The number of entries in the log.
    pub closed spec fn spec_entries(&self) -> nat {
        self.segments@.len()
    }

    /// What an operation leaves behind that has appended `bytes` for an
    /// entry and made the store stand for `view`. It succeeds. Where
    /// compaction is not due then, the log has grown by the bytes and the
    /// counter by one. Where it is due, the log was rewritten with one entry
    /// for each live key, and the counter starts again at zero.
    pub open spec fn written(
        pre: KvStore,
        post: KvStore,
        view: Map<Seq<char>, Seq<char>>,
        bytes: Seq<u8>,
        out: Result<(), KvStoreError>,
    ) -> bool {
        &&& out is Ok
        &&& post@ == view
        &&& if compaction_due(view.dom().len(), pre.spec_total() + 1) {
            &&& post.spec_total() == 0
            &&& post.spec_entries() == view.dom().len()
        } else {
            &&& post.spec_log() == pre.spec_log() + bytes
            &&& post.spec_total() == pre.spec_total() + 1
            &&& post.spec_entries() == pre.spec_entries() + 1
        }
    }

    /// What appending an entry with its bytes leaves behind: the log has
    /// grown by the bytes, the counter by one, and the index records the
    /// span of the bytes for the key, or has dropped the key where the
    /// entry is a removal.
    pub open spec fn appended(
        pre: KvStore,
        post: KvStore,
        entry: EntryView,
        bytes: Seq<u8>,
    ) -> bool {
        &&& post.spec_log() == pre.spec_log() + bytes
        &&& post.spec_index() == apply_entry(
            pre.spec_index(),
            entry,
            pre.spec_log().len() as int,
            bytes.len() as int,
        )
        &&& post.spec_total() == pre.spec_total() + 1
        &&& post.spec_entries() == pre.spec_entries() + 1
        &&& post@ == match entry.value {
            Some(value) => pre@.insert(entry.key, value),
            None => pre@.remove(entry.key),
        }
    }

    /// What `compacted` returns: a store with the same value for every key
    /// whose log holds one entry for each live key and whose counter is
    /// zero.
    pub open spec fn compacted_spec(pre: KvStore, out: Result<KvStore, KvStoreError>) -> bool {
        &&& out matches Ok(post)
        &&& post.wf()
        &&& post@ == pre@
        &&& post.spec_total() == 0
        &&& post.spec_entries() == pre@.dom().len()
    }

    /// What `open` returns for a log: a store on the entries of the log
    /// with the index that replaying them gives, or `SerdeError` where an
    /// entry is malformed. Bytes behind the last entry that hold no further
    /// value are dropped from the log.
    pub open spec fn open_spec(log: Seq<u8>, out: Result<KvStore, KvStoreError>) -> bool {
        match replay(log) {
            Some((index, end)) => {
                &&& out matches Ok(store)
                &&& store.wf()
                &&& store.spec_index() == index
                &&& store.spec_log() == log.subrange(0, end)
                &&& store.spec_total() == 0
            },
            None => out matches Err(e) && e == KvStoreError::SerdeError,
        }
    }

    /// What `get` returns for a key: its value, or `None` where it holds
    /// none.
    pub open spec fn get_spec(
        self,
        key: Seq<char>,
        out: Result<Option<String>, KvStoreError>,
    ) -> bool {
        out matches Ok(found) && match found {
            Some(value) => self@.contains_key(key) && self@[key] == value@,
            None => !self@.contains_key(key),
        }
    }

    /// What `set` does: it succeeds, the key holds the value afterwards,
    /// and [`KvStore::written`] says what became of the log.
    pub open spec fn set_spec(
        pre: KvStore,
        post: KvStore,
        key: Seq<char>,
        value: Seq<char>,
        out: Result<(), KvStoreError>,
    ) -> bool {
        KvStore::written(
            pre,
            post,
            pre@.insert(key, value),
            entry_json(EntryView { key, value: Some(value) }),
            out,
        )
    }

    /// What `remove` does. Where the key holds no value it fails with
    /// `RemoveNonexistingKey` and changes nothing. Otherwise it succeeds,
    /// the key holds no value afterwards, and [`KvStore::written`] says
    /// what became of the log.
    pub open spec fn remove_spec(
        pre: KvStore,
        post: KvStore,
        key: Seq<char>,
        out: Result<(), KvStoreError>,
    ) -> bool {
        if !pre@.contains_key(key) {
            &&& out matches Err(e) && e == KvStoreError::RemoveNonexistingKey
            &&& post == pre
        } else {
            KvStore::written(
                pre,
                post,
                pre@.remove(key),
                entry_json(EntryView { key, value: None }),
                out,
            )
        }
    }

    /// What `rewrite` does: it succeeds, the log holds one entry for each
    /// live key afterwards, the counter starts again at zero, and the value
    /// of every key stays what it was.
    pub open spec fn rewrite_spec(
        pre: KvStore,
        post: KvStore,
        out: Result<(), KvStoreError>,
    ) -> bool {
        &&& out is Ok
        &&& post@ == pre@
        &&& post.spec_total() == 0
        &&& post.spec_entries() == pre@.dom().len()
    }

    /// What `compact` does: it succeeds; where the policy asks for a
    /// compaction the log is rewritten as [`KvStore::rewrite_spec`] says,
    /// and otherwise nothing changes.
    pub open spec fn compact_spec(
        pre: KvStore,
        post: KvStore,
        out: Result<(), KvStoreError>,
    ) -> bool {
        if compaction_due(pre@.dom().len(), pre.spec_total()) {
            KvStore::rewrite_spec(pre, post, out)
        } else {
            out is Ok && post == pre
        }
    }

    /// The keys of the store are the keys of its index, and the index is
    /// finite.
    pub proof fn lemma_view(&self)
        requires
            self.wf(),
        ensures
            self@ == store_view(self.spec_log(), self.spec_index()),
            self@.dom() == self.spec_index().dom(),
            self@.dom().finite(),
            forall|key: Seq<char>| #[trigger]
                self@.contains_key(key) ==> holds(
                    self.spec_log(),
                    key,
                    self.spec_index()[key],
                ) && self@[key] == value_at(self.spec_log(), self.spec_index()[key]),
            self.spec_total() <= self.spec_entries(),
    {
        self.index.lemma_slots();
        assert(self@.dom() =~= self.index@.dom());
    }

    /// Opening the log of a store again gives its index back: replaying the
    /// log takes every byte of it and reaches the index that the store
    /// holds.
    pub proof fn lemma_reopen(&self)
        requires
            self.wf(),
        ensures
            replay(self.spec_log()) == Some((self.spec_index(), self.spec_log().len() as int)),
    {
        lemma_replay_log_of(self.segments@);
    }

    /// Rebuilds the index by replaying a log: the index with the offset
    /// behind the last entry.
    ///
    /// Fails with `SerdeError` exactly where an entry of the log is
    /// malformed.
    pub fn mapping_from_log(log: &Vec<u8>) -> (out: Result<(Index, usize), KvStoreError>)
        ensures
            match out {
                Ok((index, end)) => {
                    &&& replay(log@) == Some((index@, end as int))
                    &&& end <= log@.len()
                    &&& index.wf()
                    &&& forall|key: Seq<char>| #[trigger]
                        index@.contains_key(key) ==> holds(log@, key, index@[key])
                },
                Err(e) => e == KvStoreError::SerdeError && replay(log@) is None,
            },
    {
        match KvStore::replay_log(log) {
            Ok((index, end, segments)) => {
                proof {
                    assert forall|key: Seq<char>| #[trigger]
                        index@.contains_key(key) implies holds(log@, key, index@[key]) by {
                        let at = index@[key];
                        let head = log@.subrange(0, end as int);
                        assert(log@.subrange(at.offset as int, at.offset + at.size)
                            =~= head.subrange(at.offset as int, at.offset + at.size));
                    }
                }
                Ok((index, end))
            },
            Err(e) => Err(e),
        }
    }

    /// Replays a log and keeps, for the proofs, the entries that it has
    /// read.
    fn replay_log(log: &Vec<u8>) -> (out: Result<
        (Index, usize, Ghost<Seq<Segment>>),
        KvStoreError,
    >)
        ensures
            match out {
                Ok((index, end, segments)) => {
                    &&& replay(log@) == Some((index@, end as int))
                    &&& end <= log@.len()
                    &&& index.wf()
                    &&& segments_wf(segments@)
                    &&& log@.subrange(0, end as int) == log_of(segments@)
                    &&& index@ == index_of(segments@)
                    &&& forall|key: Seq<char>| #[trigger]
                        index@.contains_key(key) ==> holds(
                            log@.subrange(0, end as int),
                            key,
                            index@[key],
                        )
                },
                Err(e) => e == KvStoreError::SerdeError && replay(log@) is None,
            },
    {
        let mut index = Index::new();
        let mut start: usize = 0;
        let mut more = true;
        let ghost mut segments: Seq<Segment> = Seq::empty();
        while more && start < log.len()
            invariant
                start <= log@.len(),
                index.wf(),
                segments_wf(segments),
                log@.subrange(0, start as int) == log_of(segments),
                index@ == index_of(segments),
                forall|key: Seq<char>| #[trigger]
                    index@.contains_key(key) ==> holds(
                        log@.subrange(0, start as int),
                        key,
                        index@[key],
                    ),
                replay(log@) == replay_from(log@, start as int, index@),
                !more ==> start < log@.len() && json_stream_head(
                    log@.subrange(start as int, log@.len() as int),
                ) is None,
            decreases log@.len() - start + if more { 1nat } else { 0nat },
        {
            match read_stream_head(log.as_slice(), start) {
                None => {
                    more = false;
                },
                Some(Err(e)) => {
                    return Err(KvStoreError::from(e));
                },
                Some(Ok((members, taken))) => {
                    let entry = match Entry::from_members(&members) {
                        Some(entry) => entry,
                        None => {
                            return Err(KvStoreError::SerdeError);
                        },
                    };
                    let pos = EntryPos { offset: start, size: taken };
                    let ghost before = index@;
                    let ghost segment = Segment {
                        members: members_of(members@),
                        bytes: log@.subrange(start as int, start + taken),
                    };
                    let ghost head = log@.subrange(0, start as int);
                    let ghost longer = log@.subrange(0, start + taken);
                    proof {
                        assert(longer.subrange(start as int, start + taken) =~= segment.bytes);
                    }
                    if entry.is_remove() {
                        index.remove(&entry.key);
                    } else {
                        index.insert(entry.key, pos);
                    }
                    proof {
                        lemma_log_of_push(segments, segment);
                        assert forall|key: Seq<char>| #[trigger]
                            index@.contains_key(key) implies holds(longer, key, index@[key]) by {
                            if !(entry@.value is Some && key == entry@.key) {
                                let at = before[key];
                                assert(longer.subrange(at.offset as int, at.offset + at.size)
                                    =~= head.subrange(at.offset as int, at.offset + at.size));
                            }
                        }
                        segments = segments.push(segment);
                    }
                    start = start + taken;
                },
            }
        }
        Ok((index, start, Ghost(segments)))
    }

    /// Opens a store on the bytes of its log and replays them.
    ///
    /// Fails with `SerdeError` exactly where an entry of the log is
    /// malformed. Bytes behind the last entry that hold no further value are
    /// dropped from the log.
    pub fn open(log: Vec<u8>) -> (out: Result<KvStore, KvStoreError>)
        ensures
            KvStore::open_spec(log@, out),
    {
        let mut log = log;
        match KvStore::replay_log(&log) {
            Ok((index, end, segments)) => {
                log.truncate(end);
                Ok(KvStore { log, index, total: 0, segments })
            },
            Err(e) => Err(e),
        }
    }

    /// The bytes of the log.
    pub fn log(&self) -> (out: &Vec<u8>)
        ensures
            out@ == self.spec_log(),
    {
        &self.log
    }

    /// The number of live keys.
    pub fn len(&self) -> (out: usize)
        requires
            self.wf(),
        ensures
            out == self@.dom().len(),
    {
        proof {
            self.lemma_view();
        }
        self.index.len()
    }

    /// The number of entries appended since the index was last rebuilt.
    pub fn total(&self) -> (out: usize)
        ensures
            out == self.spec_total(),
    {
        self.total
    }

    /// Whether `key` holds a value.
    pub fn contains(&self, key: &String) -> (out: bool)
        requires
            self.wf(),
        ensures
            out == self@.contains_key(key@),
    {
        self.index.get(key).is_some()
    }

    /// The value of `key`, or `None` where the key holds none.
    pub fn get(&self, key: String) -> (out: Result<Option<String>, KvStoreError>)
        requires
            self.wf(),
        ensures
            self.get_spec(key@, out),
    {
        match self.index.get(&key) {
            None => Ok(None),
            Some(pos) => {
                match deserialize(&self.log, pos) {
                    Ok(entry) => Ok(entry.value),
                    Err(e) => Err(e),
                }
            },
        }
    }

    /// Appends an entry with its bytes to the log, counts it, and records it
    /// in the index. The bytes are the ones that [`Entry::encode`] has
    /// returned for the entry.
    pub fn append_entry(&mut self, entry: Entry, bytes: Vec<u8>)
        requires
            old(self).wf(),
            reads_back(entry_members(entry@), bytes@),
        ensures
            final(self).wf(),
            KvStore::appended(*old(self), *final(self), entry@, bytes@),
    {
        let ghost segment = Segment { members: entry_members(entry@), bytes: bytes@ };
        let ghost old_log = self.log@;
        let ghost old_index = self.index@;
        proof {
            lemma_members_of_entry(entry@);
            lemma_log_of_push(self.segments@, segment);
            lemma_log_of_len(self.segments@.push(segment));
        }
        let pos = append_file(&mut self.log, bytes);
        // the log is longer than the number of its entries, so the counter has room
        let _ = self.log.len();
        self.total = self.total + 1;
        if entry.is_remove() {
            self.index.remove(&entry.key);
        } else {
            self.index.insert(entry.key, pos);
        }
        proof {
            self.segments@ = self.segments@.push(segment);
            let new_log = self.log@;
            assert(new_log.subrange(pos.offset as int, pos.offset + pos.size) =~= segment.bytes);
            assert forall|key: Seq<char>| #[trigger]
                self.index@.contains_key(key) implies holds(new_log, key, self.index@[key]) by {
                if !(entry@.value is Some && key == entry@.key) {
                    let at = old_index[key];
                    assert(new_log.subrange(at.offset as int, at.offset + at.size)
                        =~= old_log.subrange(at.offset as int, at.offset + at.size));
                }
            }
            let expected = match entry@.value {
                Some(value) => store_view(old_log, old_index).insert(entry@.key, value),
                None => store_view(old_log, old_index).remove(entry@.key),
            };
            assert forall|key: Seq<char>| #[trigger]
                expected.contains_key(key) implies store_view(new_log, self.index@)[key]
                == expected[key] by {
                if !(entry@.value is Some && key == entry@.key) {
                    let at = old_index[key];
                    assert(new_log.subrange(at.offset as int, at.offset + at.size)
                        =~= old_log.subrange(at.offset as int, at.offset + at.size));
                }
            }
            assert(store_view(new_log, self.index@) =~= expected);
        }
    }

    /// The store after a compaction: its log holds one entry for every live
    /// key, in the order in which the index is walked, its index is built
    /// on that log, and its counter is zero. This does not fail: every span
    /// in the index holds an entry, and every entry can be encoded.
    pub fn compacted(&self) -> (out: Result<KvStore, KvStoreError>)
        requires
            self.wf(),
        ensures
            KvStore::compacted_spec(*self, out),
    {
        let count = self.index.len();
        let mut new_log: Vec<u8> = Vec::new();
        let mut new_index = Index::new();
        let ghost mut new_segments: Seq<Segment> = Seq::empty();
        let ghost slots = self.index.slots();
        let ghost old_log = self.log@;
        let ghost old_index = self.index@;
        proof {
            self.index.lemma_slots();
            self.lemma_view();
        }
        let mut i: usize = 0;
        while i < count
            invariant
                self.wf(),
                slots == self.index.slots(),
                old_log == self.log@,
                old_index == self.index@,
                old_index == slots_map(slots),
                distinct_keys(slots),
                count == slots.len(),
                i <= count,
                new_index.wf(),
                segments_wf(new_segments),
                new_log@ == log_of(new_segments),
                new_index@ == index_of(new_segments),
                new_segments.len() == i,
                new_index.slots().len() == i,
                forall|j: int|
                    0 <= j < i ==> (#[trigger] new_index.slots()[j]).key@ == slots[j].key@,
                forall|j: int|
                    0 <= j < i ==> {
                        let key = (#[trigger] slots[j]).key@;
                        &&& new_index@.contains_key(key)
                        &&& holds(new_log@, key, new_index@[key])
                        &&& value_at(new_log@, new_index@[key]) == value_at(old_log, old_index[key])
                    },
            decreases count - i,
        {
            let slot = self.index.slot(i);
            proof {
                lemma_slots_map_value(slots, i as int);
            }
            let entry = match deserialize(&self.log, slot.pos) {
                Ok(entry) => entry,
                Err(e) => {
                    return Err(e);
                },
            };
            let bytes = match entry.encode() {
                Ok(bytes) => bytes,
                Err(e) => {
                    return Err(e);
                },
            };
            let ghost segment = Segment { members: entry_members(entry@), bytes: bytes@ };
            let ghost log_before = new_log@;
            let ghost index_before = new_index@;
            let ghost slots_before = new_index.slots();
            proof {
                lemma_members_of_entry(entry@);
                lemma_log_of_push(new_segments, segment);
                new_index.lemma_slots();
                lemma_slots_map_contains(slots_before, slot.key@);
            }
            let pos = append_file(&mut new_log, bytes);
            new_index.push_new(slot.key.clone(), pos);
            proof {
                new_segments = new_segments.push(segment);
                let log_after = new_log@;
                assert(log_after.subrange(pos.offset as int, pos.offset + pos.size)
                    =~= segment.bytes);
                assert forall|j: int| 0 <= j < i + 1 implies {
                    let key = (#[trigger] slots[j]).key@;
                    &&& new_index@.contains_key(key)
                    &&& holds(log_after, key, new_index@[key])
                    &&& value_at(log_after, new_index@[key]) == value_at(old_log, old_index[key])
                } by {
                    let key = slots[j].key@;
                    if j < i {
                        let at = index_before[key];
                        assert(log_after.subrange(at.offset as int, at.offset + at.size)
                            =~= log_before.subrange(at.offset as int, at.offset + at.size));
                    }
                }
            }
            i += 1;
        }
        proof {
            new_index.lemma_slots();
            assert forall|key: Seq<char>| #[trigger]
                new_index@.contains_key(key) implies old_index.contains_key(key) && holds(
                new_log@,
                key,
                new_index@[key],
            ) && value_at(new_log@, new_index@[key]) == value_at(old_log, old_index[key]) by {
                lemma_slots_map_contains(new_index.slots(), key);
                let j = choose|j: int|
                    0 <= j < new_index.slots().len() && #[trigger] new_index.slots()[j].key@
                        == key;
                lemma_slots_map_value(slots, j);
            }
            assert forall|key: Seq<char>| #[trigger]
                old_index.contains_key(key) implies new_index@.contains_key(key) by {
                lemma_slots_map_contains(slots, key);
            }
            assert(store_view(new_log@, new_index@) =~= store_view(old_log, old_index));
        }
        Ok(KvStore { log: new_log, index: new_index, total: 0, segments: Ghost(new_segments) })
    }

    /// Rewrites the log, whether the policy asks for it or not, so that it
    /// holds one entry for every live key, and rebuilds the index on the
    /// new log. The counter starts again at zero.
    pub fn rewrite(&mut self) -> (out: Result<(), KvStoreError>)
        requires
            old(self).wf(),
        ensures
            final(self).wf(),
            KvStore::rewrite_spec(*old(self), *final(self), out),
    {
        match self.compacted() {
            Ok(next) => {
                *self = next;
                Ok(())
            },
            Err(e) => Err(e),
        }
    }

    /// Whether the policy asks for a compaction.
    pub fn needs_compaction(&self) -> (out: bool)
        requires
            self.wf(),
        ensures
            out == compaction_due(self@.dom().len(), self.spec_total()),
    {
        proof {
            self.lemma_view();
        }
        is_compaction_due(self.index.len(), self.total)
    }

    /// Compacts the log where the policy asks for it, and does nothing
    /// where it does not.
    pub fn compact(&mut self) -> (out: Result<(), KvStoreError>)
        requires
            old(self).wf(),
        ensures
            final(self).wf(),
            KvStore::compact_spec(*old(self), *final(self), out),
    {
        if self.needs_compaction() {
            self.rewrite()
        } else {
            Ok(())
        }
    }

    /// Sets `key` to `value`: appends an entry to the log, counts it,
    /// records its span for the key, and then compacts the log where the
    /// policy asks for it. This does not fail.
    pub fn set(&mut self, key: String, value: String) -> (out: Result<(), KvStoreError>)
        requires
            old(self).wf(),
        ensures
            final(self).wf(),
            KvStore::set_spec(*old(self), *final(self), key@, value@, out),
    {
        let entry = Entry { key, value: Some(value) };
        let bytes = match entry.encode() {
            Ok(bytes) => bytes,
            Err(e) => {
                return Err(e);
            },
        };
        self.append_entry(entry, bytes);
        self.compact()
    }

    /// Removes `key`: appends a tombstone to the log, counts it, drops the
    /// key from the index, and then compacts the log where the policy asks
    /// for it.
    ///
    /// Fails with `RemoveNonexistingKey`, and changes nothing, exactly where
    /// the key holds no value.
    pub fn remove(&mut self, key: String) -> (out: Result<(), KvStoreError>)
        requires
            old(self).wf(),
        ensures
            final(self).wf(),
            KvStore::remove_spec(*old(self), *final(self), key@, out),
    {
        if !self.contains(&key) {
            return Err(KvStoreError::RemoveNonexistingKey);
        }
        let entry = Entry { key, value: None };
        let bytes = match entry.encode() {
            Ok(bytes) => bytes,
            Err(e) => {
                return Err(e);
            },
        };
        self.append_entry(entry, bytes);
        self.compact()
    }
}

} // verus!
