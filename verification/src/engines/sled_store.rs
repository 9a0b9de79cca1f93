//! The store on top of the `sled` database.

use crate::engines::KvsEngine;
use crate::error::KvStoreError;
use vstd::prelude::*;
use vstd::utf8::{decode_utf8, valid_utf8};

verus! {

/// `sled::Db`: a handle on a database; every clone works on the same
/// database.
#[verifier::external_type_specification]
#[verifier::external_body]
pub struct ExSledDb(sled::Db);

/// `Clone` of a `sled::Db` gives another handle on the same database.
/// Nothing is claimed of it.
pub assume_specification[ <sled::Db as Clone>::clone ](db: &sled::Db) -> (out: sled::Db);

/// `std::path::PathBuf`: a path in the file system.
#[verifier::external_type_specification]
#[verifier::external_body]
pub struct ExPathBuf(std::path::PathBuf);

/// Calls `sled::open`, which opens the database in the directory `path`
/// and creates it where there is none. Nothing is claimed of the result:
/// it depends on what the directory holds.
#[verifier::external_body]
fn sled_open(path: &std::path::PathBuf) -> (out: Result<sled::Db, sled::Error>) {
    sled::open(path)
}

/// Calls `sled::Tree::insert` on the default tree of the database and hands
/// back the value that the key held before. Nothing is claimed of the
/// result: other handles work on the same database.
#[verifier::external_body]
fn sled_insert(db: &sled::Db, key: &[u8], value: &[u8]) -> (out: Result<
    Option<Vec<u8>>,
    sled::Error,
>) {
    db.insert(key, value).map(|old| old.map(|bytes| bytes.to_vec()))
}

/// Calls `sled::Tree::get` on the default tree of the database. Nothing is
/// claimed of the result.
#[verifier::external_body]
fn sled_get(db: &sled::Db, key: &[u8]) -> (out: Result<Option<Vec<u8>>, sled::Error>) {
    db.get(key).map(|found| found.map(|bytes| bytes.to_vec()))
}

/// Calls `sled::Tree::remove` on the default tree of the database and hands
/// back the value that the key held before. Nothing is claimed of the
/// result.
#[verifier::external_body]
fn sled_remove(db: &sled::Db, key: &[u8]) -> (out: Result<Option<Vec<u8>>, sled::Error>) {
    db.remove(key).map(|old| old.map(|bytes| bytes.to_vec()))
}

/// Calls `sled::Tree::flush`, which writes what is pending to disk and
/// returns the number of bytes written. Nothing is claimed of the result.
#[verifier::external_body]
fn sled_flush(db: &sled::Db) -> (out: Result<usize, sled::Error>) {
    db.flush()
}

/// Calls `String::from_utf8`.
///
/// Trusted: it returns the text that the bytes encode where they are valid
/// UTF-8, and fails otherwise.
#[verifier::external_body]
fn text_from_utf8(bytes: Vec<u8>) -> (out: Option<String>)
    ensures
        match out {
            Some(text) => valid_utf8(bytes@) && text@ == decode_utf8(bytes@),
            None => !valid_utf8(bytes@),
        },
{
    String::from_utf8(bytes).ok()
}

/// A store that keeps its keys and values in a `sled` database.
#[derive(Clone)]
pub struct SledKvsStore {
    store: sled::Db,
}

impl SledKvsStore {
    /// The database that the store works on.
    pub closed spec fn db(&self) -> sled::Db {
        self.store
    }

    /// What `open` makes of the answer of the database: a store on the
    /// database, or `SledError`.
    pub fn opened(answer: Result<sled::Db, sled::Error>) -> (out: Result<
        SledKvsStore,
        KvStoreError,
    >)
        ensures
            match answer {
                Ok(db) => out matches Ok(store) && store.db() == db,
                Err(_) => out matches Err(e) && e == KvStoreError::SledError,
            },
    {
        match answer {
            Ok(store) => Ok(SledKvsStore { store }),
            Err(e) => Err(KvStoreError::from(e)),
        }
    }

    /// Opens the database in the directory `dir_path`.
    ///
    /// Fails with `SledError` where the database cannot be opened.
    pub fn open(dir_path: &std::path::PathBuf) -> (out: Result<SledKvsStore, KvStoreError>)
        ensures
            out matches Err(e) ==> e == KvStoreError::SledError,
    {
        SledKvsStore::opened(sled_open(dir_path))
    }

    /// What every call makes of an answer of the database: the answer
    /// itself where the database has given one, `SledError` where it has
    /// failed.
    pub fn answered<T>(answer: Result<T, sled::Error>) -> (out: Result<T, KvStoreError>)
        ensures
            match answer {
                Ok(given) => out == Ok::<T, KvStoreError>(given),
                Err(_) => out matches Err(e) && e == KvStoreError::SledError,
            },
    {
        match answer {
            Ok(given) => Ok(given),
            Err(e) => Err(KvStoreError::from(e)),
        }
    }

    /// What `get` makes of a value found in the database: its text, or
    /// `SledError` where the bytes are no text.
    pub fn found(value: Option<Vec<u8>>) -> (out: Result<Option<String>, KvStoreError>)
        ensures
            match value {
                None => out matches Ok(None),
                Some(bytes) => if valid_utf8(bytes@) {
                    out matches Ok(Some(text)) && text@ == decode_utf8(bytes@)
                } else {
                    out matches Err(e) && e == KvStoreError::SledError
                },
            },
    {
        match value {
            None => Ok(None),
            Some(bytes) => match text_from_utf8(bytes) {
                Some(text) => Ok(Some(text)),
                None => Err(KvStoreError::SledError),
            },
        }
    }

    /// What `remove` makes of the value that the key held before: success
    /// where there was one, `RemoveNonexistingKey` where there was none.
    pub fn removed(old: Option<Vec<u8>>) -> (out: Result<(), KvStoreError>)
        ensures
            match old {
                Some(_) => out is Ok,
                None => out matches Err(e) && e == KvStoreError::RemoveNonexistingKey,
            },
    {
        match old {
            Some(_) => Ok(()),
            None => Err(KvStoreError::RemoveNonexistingKey),
        }
    }
}

impl KvsEngine for SledKvsStore {
    /// A failed `set` reports `SledError`.
    open spec fn set_result(
        &self,
        key: Seq<char>,
        value: Seq<char>,
        out: Result<(), KvStoreError>,
    ) -> bool {
        out matches Err(e) ==> e == KvStoreError::SledError
    }

    /// A failed `get` reports `SledError`.
    open spec fn get_result(
        &self,
        key: Seq<char>,
        out: Result<Option<String>, KvStoreError>,
    ) -> bool {
        out matches Err(e) ==> e == KvStoreError::SledError
    }

    /// A failed `remove` reports `RemoveNonexistingKey` or `SledError`.
    open spec fn remove_result(&self, key: Seq<char>, out: Result<(), KvStoreError>) -> bool {
        out matches Err(e) ==> e == KvStoreError::RemoveNonexistingKey || e
            == KvStoreError::SledError
    }

    fn set(&self, key: String, value: String) -> (out: Result<(), KvStoreError>) {
        let inserted = sled_insert(&self.store, key.as_str().as_bytes(), value.as_str().as_bytes());
        match SledKvsStore::answered(inserted) {
            Ok(_) => {},
            Err(e) => {
                return Err(e);
            },
        }
        match SledKvsStore::answered(sled_flush(&self.store)) {
            Ok(_) => Ok(()),
            Err(e) => Err(e),
        }
    }

    fn get(&self, key: String) -> (out: Result<Option<String>, KvStoreError>) {
        match SledKvsStore::answered(sled_get(&self.store, key.as_str().as_bytes())) {
            Ok(value) => SledKvsStore::found(value),
            Err(e) => Err(e),
        }
    }

    fn remove(&self, key: String) -> (out: Result<(), KvStoreError>) {
        let old = match SledKvsStore::answered(sled_remove(&self.store, key.as_str().as_bytes())) {
            Ok(old) => old,
            Err(e) => {
                return Err(e);
            },
        };
        match SledKvsStore::answered(sled_flush(&self.store)) {
            Ok(_) => SledKvsStore::removed(old),
            Err(e) => Err(e),
        }
    }
}

} // verus!
