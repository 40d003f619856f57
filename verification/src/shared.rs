use vstd::prelude::*;

use std::sync::Arc;

verus! {

/// Another handle on the value behind `a`.
///
/// Calls `Arc::clone`, which, as std documents, makes a new pointer to the
/// same allocation: the handle it returns reads the same value.
#[verifier::external_body]
pub(crate) fn share<T>(a: &Arc<T>) -> (r: Arc<T>)
    ensures
        r == *a,
{
    Arc::clone(a)
}

} // verus!
