//! The log as a sequence of entries, and what replaying it gives.
//!
//! A log is read from its first byte as a concatenation of JSON objects
//! without separators. Each entry that sets a key records the span of its
//! bytes for that key; each entry that removes a key drops the key.

use crate::entry::{json_entry, members_entry, EntryView};
use crate::index::EntryPos;
use crate::json::{json_stream_head, reads_back};
use vstd::prelude::*;

verus! {

/// One entry of a log with the bytes that hold it.
pub struct Segment {
    pub members: Map<Seq<char>, Option<Seq<char>>>,
    pub bytes: Seq<u8>,
}

impl Segment {
    /// The bytes hold one JSON object, and that object stands for an entry.
    pub open spec fn wf(self) -> bool {
        reads_back(self.members, self.bytes) && members_entry(self.members) is Some
    }

    /// The entry that the segment holds.
    pub open spec fn entry(self) -> EntryView {
        members_entry(self.members).unwrap()
    }
}

/// Every segment is well formed.
pub open spec fn segments_wf(segments: Seq<Segment>) -> bool {
    forall|i: int| 0 <= i < segments.len() ==> (#[trigger] segments[i]).wf()
}

/// The bytes of a log made of these segments.
pub open spec fn log_of(segments: Seq<Segment>) -> Seq<u8>
    decreases segments.len(),
{
    if segments.len() == 0 {
        Seq::empty()
    } else {
        log_of(segments.drop_last()) + segments.last().bytes
    }
}

/// The index after an entry found at `offset`, `size` bytes long: a set
/// records the span for its key, a removal drops the key.
pub open spec fn apply_entry(
    index: Map<Seq<char>, EntryPos>,
    entry: EntryView,
    offset: int,
    size: int,
) -> Map<Seq<char>, EntryPos> {
    match entry.value {
        Some(_) => index.insert(
            entry.key,
            EntryPos { offset: offset as usize, size: size as usize },
        ),
        None => index.remove(entry.key),
    }
}

/// The index of a log made of these segments: for every key, the span of
/// the last entry that set it, unless a later entry removed it.
pub open spec fn index_of(segments: Seq<Segment>) -> Map<Seq<char>, EntryPos>
    decreases segments.len(),
{
    if segments.len() == 0 {
        Map::empty()
    } else {
        apply_entry(
            index_of(segments.drop_last()),
            segments.last().entry(),
            log_of(segments.drop_last()).len() as int,
            segments.last().bytes.len() as int,
        )
    }
}

/// Replays `log` from `start` on top of `index`. The result is the index
/// reached with the offset behind the last entry, or `None` where an entry
/// is malformed. Bytes behind the last entry that hold no further value are
/// left out.
pub open spec fn replay_from(log: Seq<u8>, start: int, index: Map<Seq<char>, EntryPos>) -> Option<
    (Map<Seq<char>, EntryPos>, int),
>
    decreases log.len() - start,
{
    if start < 0 || start >= log.len() {
        Some((index, start))
    } else {
        match json_stream_head(log.subrange(start, log.len() as int)) {
            None => Some((index, start)),
            Some(None) => None,
            Some(Some((members, taken))) => {
                if taken == 0 || start + taken > log.len() {
                    None
                } else {
                    match members_entry(members) {
                        None => None,
                        Some(entry) => replay_from(
                            log,
                            start + taken,
                            apply_entry(index, entry, start, taken as int),
                        ),
                    }
                }
            },
        }
    }
}

/// Replays a whole log into an empty index.
pub open spec fn replay(log: Seq<u8>) -> Option<(Map<Seq<char>, EntryPos>, int)> {
    replay_from(log, 0, Map::empty())
}

/// The span `pos` of `log` holds an entry that sets `key`.
pub open spec fn holds(log: Seq<u8>, key: Seq<char>, pos: EntryPos) -> bool {
    &&& pos.offset + pos.size <= log.len()
    &&& json_entry(log.subrange(pos.offset as int, pos.offset + pos.size)) matches Some(entry)
        && entry.key == key && entry.value is Some
}

/// The value found in the span `pos` of `log`.
pub open spec fn value_at(log: Seq<u8>, pos: EntryPos) -> Seq<char> {
    json_entry(log.subrange(pos.offset as int, pos.offset + pos.size)).unwrap().value.unwrap()
}

/// The mapping from keys to values that a log and its index stand for.
pub open spec fn store_view(log: Seq<u8>, index: Map<Seq<char>, EntryPos>) -> Map<
    Seq<char>,
    Seq<char>,
> {
    Map::new(|key: Seq<char>| index.contains_key(key), |key: Seq<char>| value_at(log, index[key]))
}

/// Replaying ends within the log, at or behind the offset it started from.
pub proof fn lemma_replay_end(log: Seq<u8>, start: int, index: Map<Seq<char>, EntryPos>)
    requires
        0 <= start <= log.len(),
    ensures
        replay_from(log, start, index) matches Some((_, end)) ==> start <= end <= log.len(),
    decreases log.len() - start,
{
    if start < log.len() {
        match json_stream_head(log.subrange(start, log.len() as int)) {
            Some(Some((members, taken))) => {
                if taken != 0 && start + taken <= log.len() {
                    match members_entry(members) {
                        Some(entry) => {
                            lemma_replay_end(
                                log,
                                start + taken,
                                apply_entry(index, entry, start, taken as int),
                            );
                        },
                        None => {},
                    }
                }
            },
            _ => {},
        }
    }
}

/// A log grows by the bytes of the segment added to it.
pub proof fn lemma_log_of_push(segments: Seq<Segment>, segment: Segment)
    ensures
        log_of(segments.push(segment)) == log_of(segments) + segment.bytes,
        index_of(segments.push(segment)) == apply_entry(
            index_of(segments),
            segment.entry(),
            log_of(segments).len() as int,
            segment.bytes.len() as int,
        ),
{
    assert(segments.push(segment).drop_last() =~= segments);
}

/// A log is at least as long as the number of its segments.
pub proof fn lemma_log_of_len(segments: Seq<Segment>)
    requires
        segments_wf(segments),
    ensures
        log_of(segments).len() >= segments.len(),
    decreases segments.len(),
{
    if segments.len() > 0 {
        lemma_log_of_len(segments.drop_last());
    }
}

/// The log of the first `j` segments is the head of the whole log.
pub proof fn lemma_log_of_prefix(segments: Seq<Segment>, j: int)
    requires
        0 <= j <= segments.len(),
    ensures
        log_of(segments.take(j)).len() <= log_of(segments).len(),
        log_of(segments).subrange(0, log_of(segments.take(j)).len() as int) == log_of(
            segments.take(j),
        ),
    decreases segments.len() - j,
{
    if j == segments.len() {
        assert(segments.take(j) =~= segments);
    } else {
        lemma_log_of_prefix(segments, j + 1);
        assert(segments.take(j + 1).drop_last() =~= segments.take(j));
    }
}

/// Replaying a log made of well-formed segments from behind its first `j`
/// segments, on top of their index, ends behind the last byte with the
/// index of all segments.
pub proof fn lemma_replay_segments(segments: Seq<Segment>, j: int)
    requires
        segments_wf(segments),
        0 <= j <= segments.len(),
    ensures
        replay_from(
            log_of(segments),
            log_of(segments.take(j)).len() as int,
            index_of(segments.take(j)),
        ) == Some((index_of(segments), log_of(segments).len() as int)),
    decreases segments.len() - j,
{
    let log = log_of(segments);
    let start = log_of(segments.take(j)).len() as int;
    lemma_log_of_prefix(segments, j);
    if j == segments.len() {
        assert(segments.take(j) =~= segments);
    } else {
        let segment = segments[j];
        lemma_log_of_prefix(segments, j + 1);
        assert(segments.take(j + 1).drop_last() =~= segments.take(j));
        let next = log_of(segments.take(j + 1)).len() as int;
        let rest = log.subrange(next, log.len() as int);
        assert(log.subrange(start, log.len() as int) =~= segment.bytes + rest) by {
            assert forall|i: int| 0 <= i < segment.bytes.len() implies log[start + i]
                == segment.bytes[i] by {
                assert(log.subrange(0, next)[start + i] == segment.bytes[i]);
            }
        }
        lemma_replay_segments(segments, j + 1);
    }
}

/// Replaying a log made of well-formed segments gives their index and
/// takes every byte.
pub proof fn lemma_replay_log_of(segments: Seq<Segment>)
    requires
        segments_wf(segments),
    ensures
        replay(log_of(segments)) == Some((index_of(segments), log_of(segments).len() as int)),
{
    lemma_replay_segments(segments, 0);
}

} // verus!
