//! Context for a computation that gives a sequence of fallible results.
//!
//! A sequence may fail many times before it ends, so the payload of these
//! adapters is never used up: the eager adapter joins a duplicate of its
//! context with each failure, the lazy adapter calls its operation anew for
//! each. Neither has a state after which it must not be driven.
use vstd::prelude::*;
use core::marker::PhantomData;
use core::task::Poll;
use crate::{converts, produces, ErrorCompat, IntoError};

verus! {

/// Duplicating `context` may give `duplicate`.
pub open spec fn duplicates<C: Clone>(context: C, duplicate: C) -> bool {
    call_ensures(C::clone, (&context,), duplicate)
}

/// How the eager adapter replaces a failure: a duplicate of the stored
/// context is joined with it.
pub open spec fn eager_conversion<C, E, E2>() -> spec_fn(C, E, E2) -> bool where
    C: IntoError<E2, Source = E> + Clone,
 {
    |context: C, source: E, error: E2|
        exists|duplicate: C| #[trigger]
            duplicates(context, duplicate) && converts(duplicate, source, error)
}

/// How the lazy adapter replaces a failure: the stored operation is called,
/// and the context it gives is joined with the failure.
pub open spec fn lazy_conversion<F, C, E, E2>() -> spec_fn(F, E, E2) -> bool where
    F: FnMut() -> C,
    C: IntoError<E2, Source = E>,
 {
    |factory: F, source: E, error: E2|
        exists|context: C| #[trigger] produces(factory, context) && converts(context, source, error)
}

/// What an adapter holding `payload` may report when the wrapped sequence
/// reports `inner_res`.
pub open spec fn adapts<P, T, E, E2>(
    conversion: spec_fn(P, E, E2) -> bool,
    payload: P,
    inner_res: Poll<Option<Result<T, E>>>,
    res: Poll<Option<Result<T, E2>>>,
) -> bool {
    match inner_res {
        Poll::Pending => res is Pending,
        Poll::Ready(None) => res == Poll::<Option<Result<T, E2>>>::Ready(None),
        Poll::Ready(Some(Ok(value))) => res == Poll::<Option<Result<T, E2>>>::Ready(
            Some(Ok(value)),
        ),
        Poll::Ready(Some(Err(source))) => {
            &&& res matches Poll::Ready(Some(Err(error)))
            &&& conversion(payload, source, error)
        },
    }
}

/// `outputs` is what an adapter holding `payload` may report, step by step,
/// when the wrapped sequence reports `inputs`.
pub open spec fn adapts_all<P, T, E, E2>(
    conversion: spec_fn(P, E, E2) -> bool,
    payload: P,
    inputs: Seq<Poll<Option<Result<T, E>>>>,
    outputs: Seq<Poll<Option<Result<T, E2>>>>,
) -> bool {
    &&& outputs.len() == inputs.len()
    &&& forall|i: int|
        0 <= i < inputs.len() ==> adapts(conversion, payload, #[trigger] inputs[i], outputs[i])
}

/// The success values among `steps`, in the order in which they were
/// reported.
pub open spec fn successes<T, E>(steps: Seq<Poll<Option<Result<T, E>>>>) -> Seq<T>
    decreases steps.len(),
{
    if steps.len() == 0 {
        Seq::empty()
    } else {
        let earlier = successes(steps.drop_last());
        match steps.last() {
            Poll::Ready(Some(Ok(value))) => earlier.push(value),
            _ => earlier,
        }
    }
}

/// Adapter that joins a duplicate of a context value with each failure of the
/// sequence it wraps.
#[derive(Debug)]
pub struct Context<C, E2> {
    context: C,
    _e2: PhantomData<E2>,
}

impl<C, E2> View for Context<C, E2> {
    type V = C;

    /// The context that is duplicated for each failure.
    closed spec fn view(&self) -> C {
        self.context
    }
}

impl<C, E2> Context<C, E2> {
    /// An adapter that holds `context`.
    pub fn new(context: C) -> (adapter: Self) where C: IntoError<E2> + Clone, E2: ErrorCompat
        ensures
            adapter@ == context,
    {
        Context { context, _e2: PhantomData }
    }

    /// One drive step: `inner_res` is what driving the wrapped sequence once
    /// for its next item has given.
    ///
    /// "Not ready", the end of the sequence and a success are handed on
    /// unchanged. A failure is joined with a duplicate of the context. The
    /// context itself stays as it is.
    pub fn poll_next<T, E>(&mut self, inner_res: Poll<Option<Result<T, E>>>) -> (res: Poll<
        Option<Result<T, E2>>,
    >) where C: IntoError<E2, Source = E> + Clone, E2: ErrorCompat
        ensures
            final(self)@ == old(self)@,
            adapts(eager_conversion::<C, E, E2>(), old(self)@, inner_res, res),
    {
        match inner_res {
            Poll::Pending => Poll::Pending,
            Poll::Ready(None) => Poll::Ready(None),
            Poll::Ready(Some(Ok(value))) => Poll::Ready(Some(Ok(value))),
            Poll::Ready(Some(Err(error))) => {
                let context = self.context.clone();
                assert(duplicates(self@, context));
                Poll::Ready(Some(Err(context.into_error(error))))
            },
        }
    }
}

/// Adapter that builds a fresh context for each failure of the sequence it
/// wraps.
#[derive(Debug)]
pub struct WithContext<F, E2> {
    context: F,
    _e2: PhantomData<E2>,
}

impl<F, E2> View for WithContext<F, E2> {
    type V = F;

    /// The operation that is called for each failure.
    closed spec fn view(&self) -> F {
        self.context
    }
}

impl<F, E2> WithContext<F, E2> {
    /// An adapter that holds the operation `context`, which is not called
    /// here.
    pub fn new<C>(context: F) -> (adapter: Self) where
        F: FnMut() -> C,
        C: IntoError<E2>,
        E2: ErrorCompat,

        ensures
            adapter@ == context,
    {
        WithContext { context, _e2: PhantomData }
    }

    /// One drive step: `inner_res` is what driving the wrapped sequence once
    /// for its next item has given.
    ///
    /// "Not ready", the end of the sequence and a success are handed on
    /// unchanged, and the operation is not called. On a failure the operation
    /// is called and the context it gives is joined with the failure.
    ///
    /// The operation has to be callable only where `inner_res` is a failure:
    /// on any other outcome nothing is known that would allow a call of it.
    pub fn poll_next<T, E, C>(&mut self, inner_res: Poll<Option<Result<T, E>>>) -> (res: Poll<
        Option<Result<T, E2>>,
    >) where F: FnMut() -> C, C: IntoError<E2, Source = E>, E2: ErrorCompat
        requires
            inner_res matches Poll::Ready(Some(Err(_))) ==> call_requires(old(self)@, ()),
        ensures
            final(self)@ == old(self)@,
            adapts(lazy_conversion::<F, C, E, E2>(), old(self)@, inner_res, res),
    {
        match inner_res {
            Poll::Pending => Poll::Pending,
            Poll::Ready(None) => Poll::Ready(None),
            Poll::Ready(Some(Ok(value))) => Poll::Ready(Some(Ok(value))),
            Poll::Ready(Some(Err(error))) => {
                let context = (self.context)();
                assert(produces(self@, context));
                Poll::Ready(Some(Err(context.into_error(error))))
            },
        }
    }
}

/// The reports grow by one step: a further step that reports what the payload
/// allows, put behind steps that did, gives steps that all do.
pub proof fn lemma_step_extends_reports<P, T, E, E2>(
    conversion: spec_fn(P, E, E2) -> bool,
    payload: P,
    inputs: Seq<Poll<Option<Result<T, E>>>>,
    outputs: Seq<Poll<Option<Result<T, E2>>>>,
    inner_res: Poll<Option<Result<T, E>>>,
    res: Poll<Option<Result<T, E2>>>,
)
    requires
        adapts_all(conversion, payload, inputs, outputs),
        adapts(conversion, payload, inner_res, res),
    ensures
        adapts_all(conversion, payload, inputs.push(inner_res), outputs.push(res)),
{
    let more_in = inputs.push(inner_res);
    let more_out = outputs.push(res);
    assert forall|i: int| 0 <= i < more_in.len() implies adapts(
        conversion,
        payload,
        #[trigger] more_in[i],
        more_out[i],
    ) by {
        if i < inputs.len() {
            assert(adapts(conversion, payload, inputs[i], outputs[i]));
        }
    }
}

/// Every report of the adapter stands where the wrapped sequence's report
/// stood and is of the same kind: "not ready" for "not ready", the end for the
/// end, a success for the same success, a failure for a failure.
pub proof fn lemma_items_keep_their_place<P, T, E, E2>(
    conversion: spec_fn(P, E, E2) -> bool,
    payload: P,
    inputs: Seq<Poll<Option<Result<T, E>>>>,
    outputs: Seq<Poll<Option<Result<T, E2>>>>,
)
    requires
        adapts_all(conversion, payload, inputs, outputs),
    ensures
        outputs.len() == inputs.len(),
        forall|i: int|
            0 <= i < inputs.len() ==> ((#[trigger] inputs[i]) is Pending <==> outputs[i] is Pending),
        forall|i: int|
            0 <= i < inputs.len() ==> ((#[trigger] inputs[i]) == Poll::<
                Option<Result<T, E>>,
            >::Ready(None) <==> outputs[i] == Poll::<Option<Result<T, E2>>>::Ready(None)),
        forall|i: int|
            0 <= i < inputs.len() ==> ((#[trigger] inputs[i]) matches Poll::Ready(Some(Ok(value)))
                ==> outputs[i] == Poll::<Option<Result<T, E2>>>::Ready(Some(Ok(value)))),
        forall|i: int|
            0 <= i < inputs.len() ==> (outputs[i] matches Poll::Ready(Some(Ok(value)))
                ==> (#[trigger] inputs[i]) == Poll::<Option<Result<T, E>>>::Ready(Some(Ok(value)))),
        forall|i: int|
            0 <= i < inputs.len() ==> ((#[trigger] inputs[i]) matches Poll::Ready(Some(Err(_)))
                <==> outputs[i] matches Poll::Ready(Some(Err(_)))),
{
}

/// The successes that the adapter reports are the successes of the wrapped
/// sequence, unchanged and in the same order.
pub proof fn lemma_successes_pass_in_order<P, T, E, E2>(
    conversion: spec_fn(P, E, E2) -> bool,
    payload: P,
    inputs: Seq<Poll<Option<Result<T, E>>>>,
    outputs: Seq<Poll<Option<Result<T, E2>>>>,
)
    requires
        adapts_all(conversion, payload, inputs, outputs),
    ensures
        successes(outputs) == successes(inputs),
    decreases inputs.len(),
{
    if inputs.len() > 0 {
        let last = inputs.len() - 1;
        assert(adapts(conversion, payload, inputs[last], outputs[last]));
        assert forall|i: int| 0 <= i < inputs.drop_last().len() implies adapts(
            conversion,
            payload,
            #[trigger] inputs.drop_last()[i],
            outputs.drop_last()[i],
        ) by {
            assert(adapts(conversion, payload, inputs[i], outputs[i]));
        }
        lemma_successes_pass_in_order(conversion, payload, inputs.drop_last(), outputs.drop_last());
    }
}

/// Each failure of a sequence wrapped with the context value `context` is
/// replaced, in its place, by what joining a duplicate of `context` with it
/// gives.
pub proof fn lemma_eager_failures_are_converted<C, T, E, E2>(
    context: C,
    inputs: Seq<Poll<Option<Result<T, E>>>>,
    outputs: Seq<Poll<Option<Result<T, E2>>>>,
    i: int,
    source: E,
) where C: IntoError<E2, Source = E> + Clone
    requires
        adapts_all(eager_conversion::<C, E, E2>(), context, inputs, outputs),
        0 <= i < inputs.len(),
        inputs[i] == Poll::<Option<Result<T, E>>>::Ready(Some(Err(source))),
    ensures
        outputs[i] matches Poll::Ready(Some(Err(error))) && exists|duplicate: C| #[trigger]
            duplicates(context, duplicate) && converts(duplicate, source, error),
{
    assert(adapts(eager_conversion::<C, E, E2>(), context, inputs[i], outputs[i]));
}

/// Each failure of a sequence wrapped with the operation `factory` is
/// replaced, in its place, by what joining a context that `factory` gives
/// with it gives.
pub proof fn lemma_lazy_failures_are_converted<F, C, T, E, E2>(
    factory: F,
    inputs: Seq<Poll<Option<Result<T, E>>>>,
    outputs: Seq<Poll<Option<Result<T, E2>>>>,
    i: int,
    source: E,
) where F: FnMut() -> C, C: IntoError<E2, Source = E>
    requires
        adapts_all(lazy_conversion::<F, C, E, E2>(), factory, inputs, outputs),
        0 <= i < inputs.len(),
        inputs[i] == Poll::<Option<Result<T, E>>>::Ready(Some(Err(source))),
    ensures
        outputs[i] matches Poll::Ready(Some(Err(error))) && exists|context: C| #[trigger]
            produces(factory, context) && converts(context, source, error),
{
    assert(adapts(lazy_conversion::<F, C, E, E2>(), factory, inputs[i], outputs[i]));
}

} // verus!
