//! Which storage engine a directory belongs to.
//!
//! A marker in the directory records the engine that was last used there.
//! A server that is asked for another engine refuses to start.

use crate::error::KvStoreError;
use vstd::prelude::*;

verus! {

/// The storage engines that a server can run on.
#[derive(Debug, Clone, Copy, PartialEq, Eq, Structural)]
pub enum Engine {
    /// The log-structured store of this crate.
    Kvs,
    /// The store on top of `sled`.
    Sled,
}

/// The lower-case form of an ASCII capital, and any other character as it
/// is.
pub open spec fn ascii_lower(c: char) -> char {
    if 'A' <= c && c <= 'Z' {
        ((c as u32) + 32) as char
    } else {
        c
    }
}

/// Two texts are the same but for the case of their ASCII letters.
pub open spec fn same_ignoring_ascii_case(a: Seq<char>, b: Seq<char>) -> bool {
    &&& a.len() == b.len()
    &&& forall|i: int| 0 <= i < a.len() ==> ascii_lower(a[i]) == ascii_lower(b[i])
}

/// Calls `str::eq_ignore_ascii_case`.
///
/// Trusted: it says whether the two texts are the same once the ASCII
/// capitals in both are made lower case.
#[verifier::external_body]
fn eq_ignore_ascii_case(a: &str, b: &str) -> (out: bool)
    ensures
        out == same_ignoring_ascii_case(a@, b@),
{
    a.eq_ignore_ascii_case(b)
}

impl Engine {
    /// The name of the engine as the marker records it.
    pub open spec fn spec_name(self) -> Seq<char> {
        match self {
            Engine::Kvs => "kvs"@,
            Engine::Sled => "sled"@,
        }
    }

    /// The engine that a text names, whatever the case of its letters.
    pub open spec fn named(text: Seq<char>) -> Option<Engine> {
        if same_ignoring_ascii_case(text, "kvs"@) {
            Some(Engine::Kvs)
        } else if same_ignoring_ascii_case(text, "sled"@) {
            Some(Engine::Sled)
        } else {
            None
        }
    }

    /// The name of the engine as the marker records it.
    pub fn name(self) -> (out: String)
        ensures
            out@ == self.spec_name(),
    {
        match self {
            Engine::Kvs => "kvs".to_owned(),
            Engine::Sled => "sled".to_owned(),
        }
    }

    /// The engine that `text` names, whatever the case of its letters.
    pub fn parse(text: &str) -> (out: Option<Engine>)
        ensures
            out == Engine::named(text@),
    {
        if eq_ignore_ascii_case(text, "kvs") {
            Some(Engine::Kvs)
        } else if eq_ignore_ascii_case(text, "sled") {
            Some(Engine::Sled)
        } else {
            None
        }
    }
}

/// The engine that a directory was last used with, given the text of its
/// marker, or `None` where it has no marker.
///
/// Fails with `WrongEngine` exactly where the marker names no engine.
pub fn current_engine(marker: Option<String>) -> (out: Result<Option<Engine>, KvStoreError>)
    ensures
        out == match marker {
            None => Ok::<Option<Engine>, KvStoreError>(None),
            Some(text) => match Engine::named(text@) {
                Some(engine) => Ok(Some(engine)),
                None => Err(KvStoreError::WrongEngine),
            },
        },
{
    match marker {
        None => Ok(None),
        Some(text) => match Engine::parse(text.as_str()) {
            Some(engine) => Ok(Some(engine)),
            None => Err(KvStoreError::WrongEngine),
        },
    }
}

/// Decides whether a server may start with the engine `wanted` in a
/// directory that was last used with `previous`. `Ok(true)` says that the
/// directory is new and the marker is to be written; `Ok(false)` that the
/// marker is there and names `wanted`.
///
/// Fails with `WrongEngine` exactly where the directory was last used with
/// another engine.
pub fn check_engine(previous: Option<Engine>, wanted: Engine) -> (out: Result<bool, KvStoreError>)
    ensures
        out == match previous {
            None => Ok::<bool, KvStoreError>(true),
            Some(engine) => if engine == wanted {
                Ok(false)
            } else {
                Err(KvStoreError::WrongEngine)
            },
        },
{
    match previous {
        None => Ok(true),
        Some(engine) => if engine == wanted {
            Ok(false)
        } else {
            Err(KvStoreError::WrongEngine)
        },
    }
}

/// Every engine is found again under the name that the marker records for
/// it.
pub proof fn lemma_name_names(engine: Engine)
    ensures
        Engine::named(engine.spec_name()) == Some(engine),
{
    reveal_strlit("kvs");
    reveal_strlit("sled");
}

} // verus!
