//! JSON objects whose members are strings or `null`, written and read by
//! `serde_json`.
//!
//! The log of the store is a concatenation of such objects. What
//! `serde_json` writes and reads is not spelled out here: each of its three
//! entry points has a name, and the functions of this module say how their
//! results relate to those names.
//!
//! What comes back from a reader is narrower than JSON: an object counts
//! only where every member is a string or `null`, and of a name that
//! occurs twice the last occurrence counts.

use std::collections::BTreeMap;
use vstd::prelude::*;

verus! {

/// One member of a JSON object: its name and its value, a string or `null`.
#[derive(Debug, Clone, PartialEq, Eq)]
pub struct Member {
    pub name: String,
    pub value: Option<String>,
}

/// The characters of an optional string.
pub open spec fn text_of(value: Option<String>) -> Option<Seq<char>> {
    match value {
        Some(text) => Some(text@),
        None => None,
    }
}

impl View for Member {
    type V = (Seq<char>, Option<Seq<char>>);

    open spec fn view(&self) -> (Seq<char>, Option<Seq<char>>) {
        (self.name@, text_of(self.value))
    }
}

/// The object that a list of members stands for: where a name occurs more
/// than once, the last occurrence counts.
pub open spec fn members_of(list: Seq<Member>) -> Map<Seq<char>, Option<Seq<char>>>
    decreases list.len(),
{
    if list.len() == 0 {
        Map::empty()
    } else {
        members_of(list.drop_last()).insert(list.last()@.0, list.last()@.1)
    }
}

/// The bytes that `serde_json::to_vec` writes for an object with these
/// members.
pub uninterp spec fn json_object(members: Map<Seq<char>, Option<Seq<char>>>) -> Seq<u8>;

/// The members that `serde_json::from_slice` reads from these bytes, taken
/// as one object of strings and nulls, or `None` where it reports an error.
pub uninterp spec fn json_members(bytes: Seq<u8>) -> Option<Map<Seq<char>, Option<Seq<char>>>>;

/// What the first step of a `serde_json::StreamDeserializer` over these
/// bytes gives: `None` where the input holds no further value,
/// `Some(None)` where it reports an error, and otherwise the members of the
/// object it read with the number of bytes it has taken for it.
pub uninterp spec fn json_stream_head(bytes: Seq<u8>) -> Option<
    Option<(Map<Seq<char>, Option<Seq<char>>>, nat)>,
>;

/// `bytes` hold exactly one object with the given members: read alone they
/// give these members, and at the head of any longer input a stream gives
/// these members and stops right behind `bytes`.
pub open spec fn reads_back(members: Map<Seq<char>, Option<Seq<char>>>, bytes: Seq<u8>) -> bool {
    &&& bytes.len() > 0
    &&& json_members(bytes) == Some(members)
    &&& forall|rest: Seq<u8>| #[trigger]
        json_stream_head(bytes + rest) == Some(Some((members, bytes.len())))
}

/// Calls `serde_json::to_vec` on a map built from `members`.
///
/// Trusted: the call does not fail, since every name in the map is a string
/// and the bytes go to a vector; the bytes returned are the ones named by
/// [`json_object`]; and `serde_json` reads its own output back, through
/// `from_slice` and at the head of a stream, as the object that was
/// written.
#[verifier::external_body]
pub(crate) fn write_object(members: &Vec<Member>) -> (out: Result<Vec<u8>, serde_json::Error>)
    ensures
        out is Ok,
        out matches Ok(bytes) ==> bytes@ == json_object(members_of(members@)),
        out matches Ok(bytes) ==> reads_back(members_of(members@), bytes@),
{
    let mut object: BTreeMap<&str, Option<&str>> = BTreeMap::new();
    for member in members.iter() {
        object.insert(member.name.as_str(), member.value.as_deref());
    }
    serde_json::to_vec(&object)
}

/// Calls `serde_json::from_slice` for a map of optional strings.
///
/// Trusted: the members returned are the ones named by [`json_members`], and
/// an error is returned only where it names none.
#[verifier::external_body]
pub(crate) fn read_object(bytes: &[u8]) -> (out: Result<Vec<Member>, serde_json::Error>)
    ensures
        match out {
            Ok(members) => json_members(bytes@) == Some(members_of(members@)),
            Err(_) => json_members(bytes@) is None,
        },
{
    let object: BTreeMap<String, Option<String>> = serde_json::from_slice(bytes)?;
    Ok(object.into_iter().map(|(name, value)| Member { name, value }).collect())
}

/// Makes a `serde_json::StreamDeserializer` over `bytes[start..]`, takes its
/// first item and asks it for its `byte_offset`.
///
/// Trusted: the outcome is the one named by [`json_stream_head`]. Where an
/// object was read, the bytes taken for it lie within the input, and they
/// alone hold that object: the stream has not looked behind its closing
/// brace.
#[verifier::external_body]
pub(crate) fn read_stream_head(bytes: &[u8], start: usize) -> (out: Option<
    Result<(Vec<Member>, usize), serde_json::Error>,
>)
    requires
        start <= bytes@.len(),
    ensures
        match out {
            None => json_stream_head(bytes@.subrange(start as int, bytes@.len() as int)) is None,
            Some(Err(_)) => json_stream_head(bytes@.subrange(start as int, bytes@.len() as int))
                == Some(None::<(Map<Seq<char>, Option<Seq<char>>>, nat)>),
            Some(Ok((members, taken))) => {
                &&& json_stream_head(bytes@.subrange(start as int, bytes@.len() as int)) == Some(
                    Some((members_of(members@), taken as nat)),
                )
                &&& start + taken <= bytes@.len()
                &&& reads_back(
                    members_of(members@),
                    bytes@.subrange(start as int, start + taken),
                )
            },
        },
{
    let source = serde_json::Deserializer::from_slice(&bytes[start..]);
    let mut stream = source.into_iter::<BTreeMap<String, Option<String>>>();
    let item = stream.next()?;
    let taken = stream.byte_offset();
    Some(item.map(|object| {
        (object.into_iter().map(|(name, value)| Member { name, value }).collect(), taken)
    }))
}

} // verus!
