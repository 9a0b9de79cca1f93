//! The server side of the protocol: one response for each request, built
//! from what the engine returns.

use crate::engines::KvsEngine;
use crate::error::KvStoreError;
use crate::message::{GetResponse, RemoveResponse, Request, Response, SetResponse};
use vstd::prelude::*;

verus! {

/// A server on top of a storage engine.
#[derive(Clone)]
pub struct KvServer<E: KvsEngine> {
    engine: E,
}

impl<E: KvsEngine> KvServer<E> {
    /// The engine that the server works on.
    pub closed spec fn engine(&self) -> E {
        self.engine
    }

    /// A server on top of `engine`.
    pub fn new(engine: E) -> (out: Self)
        ensures
            out.engine() == engine,
    {
        KvServer { engine }
    }

    /// What the server may answer to a request: the response of the kind
    /// that the request asks for, carrying a result that the engine
    /// promises for the matching call.
    pub open spec fn answers(&self, request: Request, response: Response) -> bool {
        match request {
            Request::Get { key } => exists|result: Result<Option<String>, KvStoreError>|
                #[trigger] self.engine().get_result(key@, result) && response == Response::Got(
                    GetResponse::of(result),
                ),
            Request::Put { key, value } => exists|result: Result<(), KvStoreError>|
                #[trigger] self.engine().set_result(key@, value@, result) && response
                    == Response::Put(SetResponse::of(result)),
            Request::Remove { key } => exists|result: Result<(), KvStoreError>|
                #[trigger] self.engine().remove_result(key@, result) && response
                    == Response::Removed(RemoveResponse::of(result)),
        }
    }

    /// Serves one request: calls the method of the engine that the request
    /// names and wraps what it returns in the response of the same kind.
    pub fn handle_request(&self, request: Request) -> (out: Response)
        ensures
            self.answers(request, out),
    {
        match request {
            Request::Get { key } => {
                let ghost name = key@;
                let result = self.engine.get(key);
                assert(self.engine().get_result(name, result));
                Response::Got(GetResponse::from_result(result))
            },
            Request::Put { key, value } => {
                let ghost name = key@;
                let ghost text = value@;
                let result = self.engine.set(key, value);
                assert(self.engine().set_result(name, text, result));
                Response::Put(SetResponse::from_result(result))
            },
            Request::Remove { key } => {
                let ghost name = key@;
                let result = self.engine.remove(key);
                assert(self.engine().remove_result(name, result));
                Response::Removed(RemoveResponse::from_result(result))
            },
        }
    }
}

} // verus!
