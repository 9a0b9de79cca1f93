//! The requests that a client sends and the responses that the server
//! sends back: one response for each request, in order.

use crate::error::KvStoreError;
use vstd::prelude::*;

verus! {

/// What a client asks for.
#[derive(Debug, Clone, PartialEq, Eq)]
pub enum Request {
    Get { key: String },
    Put { key: String, value: String },
    Remove { key: String },
}

/// The answer to `Request::Get`.
#[derive(Debug, Clone, PartialEq, Eq)]
pub enum GetResponse {
    Value(Option<String>),
    Failed(KvStoreError),
}

/// The answer to `Request::Put`.
#[derive(Debug, Clone, PartialEq, Eq)]
pub enum SetResponse {
    Done,
    Failed(KvStoreError),
}

/// The answer to `Request::Remove`.
#[derive(Debug, Clone, PartialEq, Eq)]
pub enum RemoveResponse {
    Done,
    Failed(KvStoreError),
}

/// The answer to a request of any kind.
#[derive(Debug, Clone, PartialEq, Eq)]
pub enum Response {
    Got(GetResponse),
    Put(SetResponse),
    Removed(RemoveResponse),
}

impl GetResponse {
    /// The response that carries the result of a `get`.
    pub open spec fn of(result: Result<Option<String>, KvStoreError>) -> GetResponse {
        match result {
            Ok(found) => GetResponse::Value(found),
            Err(e) => GetResponse::Failed(e),
        }
    }

    /// The result that the response carries.
    pub open spec fn result(self) -> Result<Option<String>, KvStoreError> {
        match self {
            GetResponse::Value(found) => Ok(found),
            GetResponse::Failed(e) => Err(e),
        }
    }

    /// Wraps the result of a `get` for the wire.
    pub fn from_result(result: Result<Option<String>, KvStoreError>) -> (out: GetResponse)
        ensures
            out == GetResponse::of(result),
    {
        match result {
            Ok(found) => GetResponse::Value(found),
            Err(e) => GetResponse::Failed(e),
        }
    }

    /// Unwraps what the server has sent.
    pub fn into_result(self) -> (out: Result<Option<String>, KvStoreError>)
        ensures
            out == self.result(),
    {
        match self {
            GetResponse::Value(found) => Ok(found),
            GetResponse::Failed(e) => Err(e),
        }
    }
}

impl SetResponse {
    /// The response that carries the result of a `set`.
    pub open spec fn of(result: Result<(), KvStoreError>) -> SetResponse {
        match result {
            Ok(_) => SetResponse::Done,
            Err(e) => SetResponse::Failed(e),
        }
    }

    /// The result that the response carries.
    pub open spec fn result(self) -> Result<(), KvStoreError> {
        match self {
            SetResponse::Done => Ok(()),
            SetResponse::Failed(e) => Err(e),
        }
    }

    /// Wraps the result of a `set` for the wire.
    pub fn from_result(result: Result<(), KvStoreError>) -> (out: SetResponse)
        ensures
            out == SetResponse::of(result),
    {
        match result {
            Ok(_) => SetResponse::Done,
            Err(e) => SetResponse::Failed(e),
        }
    }

    /// Unwraps what the server has sent.
    pub fn into_result(self) -> (out: Result<(), KvStoreError>)
        ensures
            out == self.result(),
    {
        match self {
            SetResponse::Done => Ok(()),
            SetResponse::Failed(e) => Err(e),
        }
    }
}

impl RemoveResponse {
    /// The response that carries the result of a `remove`.
    pub open spec fn of(result: Result<(), KvStoreError>) -> RemoveResponse {
        match result {
            Ok(_) => RemoveResponse::Done,
            Err(e) => RemoveResponse::Failed(e),
        }
    }

    /// The result that the response carries.
    pub open spec fn result(self) -> Result<(), KvStoreError> {
        match self {
            RemoveResponse::Done => Ok(()),
            RemoveResponse::Failed(e) => Err(e),
        }
    }

    /// Wraps the result of a `remove` for the wire.
    pub fn from_result(result: Result<(), KvStoreError>) -> (out: RemoveResponse)
        ensures
            out == RemoveResponse::of(result),
    {
        match result {
            Ok(_) => RemoveResponse::Done,
            Err(e) => RemoveResponse::Failed(e),
        }
    }

    /// Unwraps what the server has sent.
    pub fn into_result(self) -> (out: Result<(), KvStoreError>)
        ensures
            out == self.result(),
    {
        match self {
            RemoveResponse::Done => Ok(()),
            RemoveResponse::Failed(e) => Err(e),
        }
    }
}

/// A result survives the way over the wire: what the client unwraps is what
/// the server has wrapped.
pub proof fn lemma_get_response_carries(result: Result<Option<String>, KvStoreError>)
    ensures
        GetResponse::of(result).result() == result,
{
}

/// A result survives the way over the wire: the client sees success where
/// the server saw it, and the same error otherwise.
pub proof fn lemma_set_response_carries(result: Result<(), KvStoreError>)
    ensures
        SetResponse::of(result).result() is Ok <==> result is Ok,
        result matches Err(e) ==> SetResponse::of(result).result() == Err::<(), KvStoreError>(e),
        RemoveResponse::of(result).result() is Ok <==> result is Ok,
        result matches Err(e) ==> RemoveResponse::of(result).result() == Err::<(), KvStoreError>(
            e,
        ),
{
}

} // verus!
