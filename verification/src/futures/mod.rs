//! Adapters for the two asynchronous shapes: a single eventual result and a
//! sequence of results.
use vstd::prelude::*;

pub mod future;
pub mod stream;

verus! {

/// `core::task::Poll`, with its two variants `Ready` and `Pending`.
#[verifier::external_type_specification]
#[verifier::reject_recursive_types(T)]
pub struct ExPoll<T>(core::task::Poll<T>);

} // verus!
