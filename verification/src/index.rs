//! The in-memory index of the store: for every live key, where its entry
//! lies in the log.
//!
//! The index is a list of slots in which no key occurs twice. Looking a key
//! up walks the list; the order of the list is the order in which a
//! compaction writes the entries out. A hash map keyed by `String` would be
//! faster and could not be reasoned about: vstd states the key model that
//! its hash-map specifications rest on for integers and `bool`, not for
//! `String`.

use vstd::prelude::*;

verus! {

/// The byte span of one serialized entry in the log.
#[derive(Debug, Clone, Copy, PartialEq, Eq, Structural)]
pub struct EntryPos {
    pub offset: usize,
    pub size: usize,
}

/// One key of the index with the place of its entry.
pub struct Slot {
    pub key: String,
    pub pos: EntryPos,
}

/// The mapping that a list of slots stands for.
pub open spec fn slots_map(slots: Seq<Slot>) -> Map<Seq<char>, EntryPos>
    decreases slots.len(),
{
    if slots.len() == 0 {
        Map::empty()
    } else {
        slots_map(slots.drop_last()).insert(slots.last().key@, slots.last().pos)
    }
}

/// No key occurs in two slots.
pub open spec fn distinct_keys(slots: Seq<Slot>) -> bool {
    forall|i: int, j: int|
        0 <= i < slots.len() && 0 <= j < slots.len() && i != j ==> slots[i].key@ != slots[j].key@
}

/// A key is in the mapping exactly if some slot holds it.
pub proof fn lemma_slots_map_contains(slots: Seq<Slot>, key: Seq<char>)
    ensures
        slots_map(slots).contains_key(key) <==> exists|i: int|
            0 <= i < slots.len() && #[trigger] slots[i].key@ == key,
    decreases slots.len(),
{
    if slots.len() > 0 {
        let front = slots.drop_last();
        lemma_slots_map_contains(front, key);
        if exists|i: int| 0 <= i < slots.len() && #[trigger] slots[i].key@ == key {
            let i = choose|i: int| 0 <= i < slots.len() && #[trigger] slots[i].key@ == key;
            if i < slots.len() - 1 {
                assert(front[i].key@ == key);
            }
        }
    }
}

/// Where keys are distinct, a key maps to the place in its slot.
pub proof fn lemma_slots_map_value(slots: Seq<Slot>, i: int)
    requires
        distinct_keys(slots),
        0 <= i < slots.len(),
    ensures
        slots_map(slots).contains_key(slots[i].key@),
        slots_map(slots)[slots[i].key@] == slots[i].pos,
    decreases slots.len(),
{
    let front = slots.drop_last();
    if i < slots.len() - 1 {
        lemma_slots_map_value(front, i);
    }
}

/// Where keys are distinct, the mapping has as many keys as there are slots.
pub proof fn lemma_slots_map_len(slots: Seq<Slot>)
    requires
        distinct_keys(slots),
    ensures
        slots_map(slots).dom().finite(),
        slots_map(slots).dom().len() == slots.len(),
    decreases slots.len(),
{
    if slots.len() > 0 {
        let front = slots.drop_last();
        lemma_slots_map_len(front);
        lemma_slots_map_contains(front, slots.last().key@);
    }
}

/// A mapping from keys to places, held as a list of slots with distinct
/// keys.
pub struct Index {
    slots: Vec<Slot>,
}

impl View for Index {
    type V = Map<Seq<char>, EntryPos>;

    closed spec fn view(&self) -> Map<Seq<char>, EntryPos> {
        slots_map(self.slots@)
    }
}

impl Index {
    /// The invariant: no key occurs twice.
    pub closed spec fn wf(&self) -> bool {
        distinct_keys(self.slots@)
    }

    /// The slots in the order in which the index is walked.
    pub closed spec fn slots(&self) -> Seq<Slot> {
        self.slots@
    }

    /// The index is the mapping of its slots; their keys are distinct.
    pub proof fn lemma_slots(&self)
        requires
            self.wf(),
        ensures
            self@ == slots_map(self.slots()),
            distinct_keys(self.slots()),
            self@.dom().finite(),
            self@.dom().len() == self.slots().len(),
    {
        lemma_slots_map_len(self.slots@);
    }

    /// An index without keys.
    pub fn new() -> (out: Self)
        ensures
            out.wf(),
            out@ == Map::<Seq<char>, EntryPos>::empty(),
            out.slots() == Seq::<Slot>::empty(),
    {
        Index { slots: Vec::new() }
    }

    /// The number of keys.
    pub fn len(&self) -> (out: usize)
        requires
            self.wf(),
        ensures
            out == self@.dom().len(),
            out == self.slots().len(),
    {
        proof {
            lemma_slots_map_len(self.slots@);
        }
        self.slots.len()
    }

    /// The slot that holds `key`, if there is one.
    fn find(&self, key: &String) -> (out: Option<usize>)
        requires
            self.wf(),
        ensures
            match out {
                Some(i) => i < self.slots@.len() && self.slots@[i as int].key@ == key@,
                None => !self@.contains_key(key@),
            },
    {
        let mut i: usize = 0;
        while i < self.slots.len()
            invariant
                i <= self.slots@.len(),
                forall|j: int| 0 <= j < i ==> self.slots@[j].key@ != key@,
            decreases self.slots@.len() - i,
        {
            if self.slots[i].key == *key {
                return Some(i);
            }
            i += 1;
        }
        proof {
            lemma_slots_map_contains(self.slots@, key@);
        }
        None
    }

    /// The place recorded for `key`, if it is a key of the index.
    pub fn get(&self, key: &String) -> (out: Option<EntryPos>)
        requires
            self.wf(),
        ensures
            out == self@.get(key@),
    {
        match self.find(key) {
            Some(i) => {
                proof {
                    lemma_slots_map_value(self.slots@, i as int);
                }
                Some(self.slots[i].pos)
            },
            None => None,
        }
    }

    /// Records `pos` for `key`, in place of what was recorded before.
    pub fn insert(&mut self, key: String, pos: EntryPos)
        requires
            old(self).wf(),
        ensures
            final(self).wf(),
            final(self)@ == old(self)@.insert(key@, pos),
    {
        match self.find(&key) {
            Some(i) => {
                let ghost before = self.slots@;
                self.slots[i].pos = pos;
                proof {
                    let after = self.slots@;
                    assert forall|k: Seq<char>|
                        slots_map(after).contains_key(k) <==> slots_map(before).insert(
                            key@,
                            pos,
                        ).contains_key(k) by {
                        lemma_slots_map_contains(after, k);
                        lemma_slots_map_contains(before, k);
                        if exists|j: int| 0 <= j < before.len() && #[trigger] before[j].key@ == k {
                            let j = choose|j: int|
                                0 <= j < before.len() && #[trigger] before[j].key@ == k;
                            assert(after[j].key@ == k);
                        }
                    }
                    assert forall|k: Seq<char>| slots_map(after).contains_key(k) implies slots_map(
                        after,
                    )[k] == slots_map(before).insert(key@, pos)[k] by {
                        lemma_slots_map_contains(after, k);
                        let j = choose|j: int|
                            0 <= j < after.len() && #[trigger] after[j].key@ == k;
                        lemma_slots_map_value(after, j);
                        lemma_slots_map_value(before, j);
                    }
                }
            },
            None => {
                let ghost before = self.slots@;
                self.slots.push(Slot { key, pos });
                proof {
                    let after = self.slots@;
                    assert(after.drop_last() =~= before);
                    lemma_slots_map_contains(before, key@);
                }
            },
        }
    }

    /// Records `pos` for a key that the index does not hold yet; the key
    /// becomes the last one in the order in which the index is walked.
    pub fn push_new(&mut self, key: String, pos: EntryPos)
        requires
            old(self).wf(),
            !old(self)@.contains_key(key@),
        ensures
            final(self).wf(),
            final(self)@ == old(self)@.insert(key@, pos),
            final(self).slots() == old(self).slots().push(Slot { key, pos }),
    {
        let ghost before = self.slots@;
        self.slots.push(Slot { key, pos });
        proof {
            let after = self.slots@;
            assert(after.drop_last() =~= before);
            lemma_slots_map_contains(before, key@);
        }
    }

    /// Forgets `key`; says whether it was a key of the index.
    pub fn remove(&mut self, key: &String) -> (out: bool)
        requires
            old(self).wf(),
        ensures
            final(self).wf(),
            out == old(self)@.contains_key(key@),
            final(self)@ == old(self)@.remove(key@),
    {
        match self.find(key) {
            Some(i) => {
                let ghost before = self.slots@;
                proof {
                    lemma_slots_map_value(before, i as int);
                }
                self.slots.remove(i);
                proof {
                    let after = self.slots@;
                    assert forall|k: Seq<char>|
                        slots_map(after).contains_key(k) <==> slots_map(before).remove(
                            key@,
                        ).contains_key(k) by {
                        lemma_slots_map_contains(after, k);
                        lemma_slots_map_contains(before, k);
                        if k != key@ && exists|j: int|
                            0 <= j < before.len() && #[trigger] before[j].key@ == k {
                            let j = choose|j: int|
                                0 <= j < before.len() && #[trigger] before[j].key@ == k;
                            let j1 = if j < i { j } else { j - 1 };
                            assert(after[j1].key@ == k);
                        }
                    }
                    assert forall|k: Seq<char>| slots_map(after).contains_key(k) implies slots_map(
                        after,
                    )[k] == slots_map(before).remove(key@)[k] by {
                        lemma_slots_map_contains(after, k);
                        let j = choose|j: int|
                            0 <= j < after.len() && #[trigger] after[j].key@ == k;
                        let j0 = if j < i { j } else { j + 1 };
                        lemma_slots_map_value(after, j);
                        lemma_slots_map_value(before, j0);
                    }
                }
                true
            },
            None => {
                false
            },
        }
    }

    /// The slot at `i` in the order in which the index is walked.
    pub fn slot(&self, i: usize) -> (out: &Slot)
        requires
            i < self.slots().len(),
        ensures
            *out == self.slots()[i as int],
    {
        &self.slots[i]
    }
}

} // verus!
