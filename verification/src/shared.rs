//! Shared ownership of values that are made once and read by many.

use std::rc::Rc;
use vstd::prelude::*;

verus! {

/// `Rc::clone`: another handle on the shared value. The value is not copied,
/// and the new handle stands for the same value as the old one.
#[verifier::external_body]
pub(crate) fn share<T>(handle: &Rc<T>) -> (r: Rc<T>)
    ensures
        r == handle,
{
    Rc::clone(handle)
}

} // verus!
