//! The flat error taxonomy shared by the store, the server and the wire.

use vstd::prelude::*;
use vstd::std_specs::convert::FromSpecImpl;

verus! {

/// `serde_json::Error`: a failure of JSON encoding or decoding.
#[verifier::external_type_specification]
#[verifier::external_body]
pub struct ExSerdeJsonError(serde_json::Error);

/// `sled::Error`: a failure of the `sled` database.
#[verifier::external_type_specification]
#[verifier::external_body]
pub struct ExSledError(sled::Error);

/// `rayon::ThreadPoolBuildError`: a failure to start the workers of a pool.
#[verifier::external_type_specification]
#[verifier::external_body]
pub struct ExThreadPoolBuildError(rayon::ThreadPoolBuildError);

/// `std::io::Error`: a failure of an operation on a file or a socket.
#[verifier::external_type_specification]
#[verifier::external_body]
pub struct ExIoError(std::io::Error);

/// Everything that can go wrong, kept coarse so that an error fits in a
/// response on the wire.
#[derive(Debug, Clone, Copy, PartialEq, Eq, Structural)]
pub enum KvStoreError {
    /// Reading or writing a file or a socket failed.
    IoError,
    /// A value could not be encoded, or bytes could not be decoded.
    SerdeError,
    /// `remove` was asked for a key that holds no value.
    RemoveNonexistingKey,
    /// The `sled` backend failed.
    SledError,
    /// The directory was last used with another storage engine.
    WrongEngine,
    /// The workers of a thread pool could not be started.
    ThreadPoolError,
}

impl From<std::io::Error> for KvStoreError {
    fn from(e: std::io::Error) -> (out: Self) {
        KvStoreError::IoError
    }
}

impl FromSpecImpl<std::io::Error> for KvStoreError {
    open spec fn obeys_from_spec() -> bool {
        true
    }

    open spec fn from_spec(e: std::io::Error) -> Self {
        KvStoreError::IoError
    }
}

impl From<serde_json::Error> for KvStoreError {
    fn from(e: serde_json::Error) -> (out: Self) {
        KvStoreError::SerdeError
    }
}

impl FromSpecImpl<serde_json::Error> for KvStoreError {
    open spec fn obeys_from_spec() -> bool {
        true
    }

    open spec fn from_spec(e: serde_json::Error) -> Self {
        KvStoreError::SerdeError
    }
}

impl From<sled::Error> for KvStoreError {
    fn from(e: sled::Error) -> (out: Self) {
        KvStoreError::SledError
    }
}

impl FromSpecImpl<sled::Error> for KvStoreError {
    open spec fn obeys_from_spec() -> bool {
        true
    }

    open spec fn from_spec(e: sled::Error) -> Self {
        KvStoreError::SledError
    }
}

impl From<rayon::ThreadPoolBuildError> for KvStoreError {
    fn from(e: rayon::ThreadPoolBuildError) -> (out: Self) {
        KvStoreError::ThreadPoolError
    }
}

impl FromSpecImpl<rayon::ThreadPoolBuildError> for KvStoreError {
    open spec fn obeys_from_spec() -> bool {
        true
    }

    open spec fn from_spec(e: rayon::ThreadPoolBuildError) -> Self {
        KvStoreError::ThreadPoolError
    }
}

} // verus!
