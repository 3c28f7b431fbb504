//! Shared ownership.
use std::sync::Arc;
use vstd::prelude::*;

verus! {

/// Returns another handle to what `shared` holds.
///
/// Calls `Arc::clone`, of which the contract claims that the handle it makes
/// refers to the same value.
#[verifier::external_body]
pub(crate) fn share<T>(shared: &Arc<T>) -> (other: Arc<T>)
    ensures
        other == *shared,
{
    Arc::clone(shared)
}

} // verus!
