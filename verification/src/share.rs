//! Sharing a value through [`Arc`].

use std::sync::Arc;
use vstd::prelude::*;

verus! {

/// The value that `shared` holds.
pub open spec fn held<T>(shared: Arc<T>) -> T {
    *shared
}

/// A second handle on the value that `shared` holds.
///
/// Calls [`Arc::clone`], which gives another pointer to the same allocation: the handle that
/// comes back is believed to hold the very value that `shared` holds.
#[verifier::external_body]
pub(crate) fn share<T>(shared: &Arc<T>) -> (handle: Arc<T>)
    ensures
        handle == *shared,
{
    Arc::clone(shared)
}

} // verus!
