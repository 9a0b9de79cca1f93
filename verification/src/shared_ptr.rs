//! Pointers to values that several owners share.

use std::sync::Arc;
use vstd::prelude::*;

verus! {

/// Calls `Arc::clone`, which gives another pointer to the same value.
#[verifier::external_body]
pub(crate) fn another<T>(pointer: &Arc<T>) -> (out: Arc<T>)
    ensures
        *out == **pointer,
{
    Arc::clone(pointer)
}

} // verus!
