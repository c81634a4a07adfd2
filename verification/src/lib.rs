//! Failure context for asynchronous fallible computations.
//!
//! An adapter stands between a wrapped computation and whoever drives it. It
//! hands successes and the "not ready" signal on untouched, and in place of
//! each failure it gives the error that joining the failure with a context
//! gives. The caller supplies the context, either as a value or as an
//! operation that builds the value when the failure is seen.
//!
//! This crate holds what an adapter decides in one drive step, from the
//! outcome of driving the wrapped computation once to the outcome that the
//! adapter reports, together with the adapter's own state. Driving the wrapped
//! computation itself is left to the caller.
use vstd::prelude::*;

pub mod futures;

verus! {

/// Joins a context with the failure it describes into a final error.
///
/// An implementor is the context; `Source` is the failure it can be joined
/// with and `E` the error that comes out. Nothing is assumed of an
/// implementation: the adapters' contracts speak of its result through
/// [`converts`].
pub trait IntoError<E>: Sized {
    /// The failure of the wrapped computation.
    type Source;

    /// Consumes the context and the failure and gives the final error.
    fn into_error(self, source: Self::Source) -> E;
}

/// Marks an error type that can carry a backtrace captured where it was built.
///
/// The adapters ask for it of the final error type and never call through it.
pub trait ErrorCompat {
}

/// `error` is what joining `context` with `source` may give.
pub open spec fn converts<C, E2>(context: C, source: C::Source, error: E2) -> bool where
    C: IntoError<E2>,
 {
    call_ensures(C::into_error, (context, source), error)
}

/// `context` is what calling the operation `factory` may give.
pub open spec fn produces<F, C>(factory: F, context: C) -> bool where F: FnOnce() -> C {
    call_ensures(factory, (), context)
}

} // verus!
