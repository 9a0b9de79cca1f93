//! The entries of the log and their JSON form.
//!
//! An entry is written as a JSON object with the members `key` and `value`;
//! a `value` of `null` marks the removal of the key.
//!
//! An entry is read from any JSON object whose members are all strings or
//! `null` and among which `key` is a string: members of other names are
//! ignored, a `value` that is missing counts as `null`, and of a member
//! that is written twice the last one counts. Anything else is malformed.

use crate::error::KvStoreError;
use crate::json::{
    json_members, json_object, members_of, read_object, reads_back, text_of, write_object, Member,
};
use vstd::prelude::*;

verus! {

/// One entry of the log: `key` was set to `value`, or removed where `value`
/// is `None`.
#[derive(Debug, Clone, PartialEq, Eq)]
pub struct Entry {
    pub key: String,
    pub value: Option<String>,
}

/// An entry as contracts speak of it.
pub struct EntryView {
    pub key: Seq<char>,
    pub value: Option<Seq<char>>,
}

impl View for Entry {
    type V = EntryView;

    open spec fn view(&self) -> EntryView {
        EntryView { key: self.key@, value: text_of(self.value) }
    }
}

/// The members of the JSON object that stands for an entry.
pub open spec fn entry_members(entry: EntryView) -> Map<Seq<char>, Option<Seq<char>>> {
    Map::empty().insert("key"@, Some(entry.key)).insert("value"@, entry.value)
}

/// The entry that a JSON object stands for. It needs a member `key` that is
/// a string; a member `value` that is missing counts as `null`; other
/// members are ignored.
pub open spec fn members_entry(members: Map<Seq<char>, Option<Seq<char>>>) -> Option<EntryView> {
    if members.contains_key("key"@) && members["key"@] is Some {
        Some(
            EntryView {
                key: members["key"@].unwrap(),
                value: if members.contains_key("value"@) {
                    members["value"@]
                } else {
                    None
                },
            },
        )
    } else {
        None
    }
}

/// The bytes of an entry in the log.
pub open spec fn entry_json(entry: EntryView) -> Seq<u8> {
    json_object(entry_members(entry))
}

/// The entry that a span of the log holds, or `None` where the bytes are
/// not one well-formed entry.
pub open spec fn json_entry(bytes: Seq<u8>) -> Option<EntryView> {
    match json_members(bytes) {
        Some(members) => members_entry(members),
        None => None,
    }
}

/// The object written for an entry stands for that entry.
pub proof fn lemma_members_of_entry(entry: EntryView)
    ensures
        members_entry(entry_members(entry)) == Some(entry),
{
    reveal_strlit("key");
    reveal_strlit("value");
    assert("key"@.len() != "value"@.len());
}

/// The value recorded under `name` in a list of members, if any.
fn member_value(members: &Vec<Member>, name: &str) -> (out: Option<Option<String>>)
    ensures
        match out {
            Some(value) => members_of(members@).contains_key(name@) && members_of(members@)[name@]
                == text_of(value),
            None => !members_of(members@).contains_key(name@),
        },
{
    let wanted = name.to_owned();
    let mut found: Option<usize> = None;
    let mut i: usize = 0;
    while i < members.len()
        invariant
            i <= members@.len(),
            wanted@ == name@,
            match found {
                Some(j) => j < i && members_of(members@.take(i as int)).contains_key(name@)
                    && members_of(members@.take(i as int))[name@] == members@[j as int]@.1,
                None => !members_of(members@.take(i as int)).contains_key(name@),
            },
        decreases members@.len() - i,
    {
        proof {
            assert(members@.take(i + 1).drop_last() =~= members@.take(i as int));
        }
        if members[i].name == wanted {
            found = Some(i);
        }
        i += 1;
    }
    proof {
        assert(members@.take(i as int) =~= members@);
    }
    match found {
        Some(j) => {
            match &members[j].value {
                Some(text) => Some(Some(text.clone())),
                None => Some(None),
            }
        },
        None => None,
    }
}

impl Entry {
    /// Whether the entry records a removal.
    pub fn is_remove(&self) -> (out: bool)
        ensures
            out == (self@.value is None),
    {
        self.value.is_none()
    }

    /// The members of the JSON object that stands for the entry.
    pub fn to_members(&self) -> (out: Vec<Member>)
        ensures
            members_of(out@) == entry_members(self@),
    {
        let value = match &self.value {
            Some(text) => Some(text.clone()),
            None => None,
        };
        let first = Member { name: "key".to_owned(), value: Some(self.key.clone()) };
        let second = Member { name: "value".to_owned(), value };
        let mut out: Vec<Member> = Vec::new();
        out.push(first);
        out.push(second);
        proof {
            let one = out@.drop_last();
            let none = one.drop_last();
            assert(members_of(one) == members_of(none).insert(one.last()@.0, one.last()@.1));
        }
        out
    }

    /// The entry that a list of members stands for, if it stands for one.
    pub fn from_members(members: &Vec<Member>) -> (out: Option<Entry>)
        ensures
            match out {
                Some(entry) => members_entry(members_of(members@)) == Some(entry@),
                None => members_entry(members_of(members@)) is None,
            },
    {
        let key = match member_value(members, "key") {
            Some(Some(key)) => key,
            _ => {
                return None;
            },
        };
        let value = match member_value(members, "value") {
            Some(value) => value,
            None => None,
        };
        Some(Entry { key, value })
    }

    /// The bytes of the entry in the log. Encoding an entry does not fail.
    pub fn encode(&self) -> (out: Result<Vec<u8>, KvStoreError>)
        ensures
            out matches Ok(bytes) && bytes@ == entry_json(self@) && reads_back(
                entry_members(self@),
                bytes@,
            ),
    {
        let members = self.to_members();
        match write_object(&members) {
            Ok(bytes) => Ok(bytes),
            Err(e) => Err(KvStoreError::from(e)),
        }
    }

    /// The entry that `bytes` hold.
    ///
    /// Fails with `SerdeError` exactly where the bytes are not one
    /// well-formed entry.
    pub fn decode(bytes: &[u8]) -> (out: Result<Entry, KvStoreError>)
        ensures
            match out {
                Ok(entry) => json_entry(bytes@) == Some(entry@),
                Err(e) => e == KvStoreError::SerdeError && json_entry(bytes@) is None,
            },
    {
        match read_object(bytes) {
            Ok(members) => match Entry::from_members(&members) {
                Some(entry) => Ok(entry),
                None => Err(KvStoreError::SerdeError),
            },
            Err(e) => Err(KvStoreError::from(e)),
        }
    }
}

} // verus!
