//! Context for a computation that gives a single fallible result.
//!
//! Both adapters hold a payload that is used at most once. It is present from
//! construction until the wrapped computation gives its result, and gone from
//! then on, whether the result was a success or a failure. Once it is gone the
//! adapter must not be driven again.
use vstd::prelude::*;
use core::marker::PhantomData;
use core::task::Poll;
use crate::{converts, produces, ErrorCompat, IntoError};

verus! {

/// How the eager adapter replaces a failure: the stored context is joined
/// with it.
pub open spec fn eager_conversion<C, E, E2>() -> spec_fn(C, E, E2) -> bool where
    C: IntoError<E2, Source = E>,
 {
    |context: C, source: E, error: E2| converts(context, source, error)
}

/// How the lazy adapter replaces a failure: the stored operation is called,
/// and the context it gives is joined with the failure.
pub open spec fn lazy_conversion<F, C, E, E2>() -> spec_fn(F, E, E2) -> bool where
    F: FnOnce() -> C,
    C: IntoError<E2, Source = E>,
 {
    |factory: F, source: E, error: E2|
        exists|context: C| #[trigger] produces(factory, context) && converts(context, source, error)
}

/// The payload that is left after a drive step: untouched while the wrapped
/// computation is not ready, gone once it has given its result.
pub open spec fn payload_after<P, R>(payload: Option<P>, inner_res: Poll<R>) -> Option<P> {
    match inner_res {
        Poll::Pending => payload,
        Poll::Ready(_) => None,
    }
}

/// The payload that is left after the steps `inputs`, taken one after another.
pub open spec fn payload_after_all<P, R>(payload: Option<P>, inputs: Seq<Poll<R>>) -> Option<P>
    decreases inputs.len(),
{
    if inputs.len() == 0 {
        payload
    } else {
        payload_after_all(payload_after(payload, inputs[0]), inputs.skip(1))
    }
}

/// What an adapter holding `payload` may report when the wrapped computation
/// reports `inner_res`.
pub open spec fn resolves<P, T, E, E2>(
    conversion: spec_fn(P, E, E2) -> bool,
    payload: Option<P>,
    inner_res: Poll<Result<T, E>>,
    res: Poll<Result<T, E2>>,
) -> bool {
    match inner_res {
        Poll::Pending => res is Pending,
        Poll::Ready(Ok(value)) => res == Poll::<Result<T, E2>>::Ready(Ok(value)),
        Poll::Ready(Err(source)) => {
            &&& payload matches Some(p)
            &&& res matches Poll::Ready(Err(error))
            &&& conversion(p, source, error)
        },
    }
}

/// `outputs` is what an adapter that starts with `payload` may report, step by
/// step, when the wrapped computation reports `inputs`. Every step finds the
/// payload present: a run has no step after the one that took it.
pub open spec fn drives<P, T, E, E2>(
    conversion: spec_fn(P, E, E2) -> bool,
    payload: Option<P>,
    inputs: Seq<Poll<Result<T, E>>>,
    outputs: Seq<Poll<Result<T, E2>>>,
) -> bool
    decreases inputs.len(),
{
    if inputs.len() == 0 {
        outputs.len() == 0
    } else {
        &&& payload is Some
        &&& outputs.len() == inputs.len()
        &&& resolves(conversion, payload, inputs[0], outputs[0])
        &&& drives(
            conversion,
            payload_after(payload, inputs[0]),
            inputs.skip(1),
            outputs.skip(1),
        )
    }
}

/// Adapter that joins a context value with the failure of the computation it
/// wraps.
#[derive(Debug)]
pub struct Context<C, E2> {
    context: Option<C>,
    _e2: PhantomData<E2>,
}

impl<C, E2> View for Context<C, E2> {
    type V = Option<C>;

    /// The context while it is still to be used, `None` once the adapter has
    /// resolved.
    closed spec fn view(&self) -> Option<C> {
        self.context
    }
}

impl<C, E2> Context<C, E2> {
    /// An adapter that has not been driven yet and holds `context`.
    pub fn new(context: C) -> (adapter: Self) where C: IntoError<E2>, E2: ErrorCompat
        ensures
            adapter@ == Some(context),
    {
        Context { context: Some(context), _e2: PhantomData }
    }

    /// Whether the adapter has reported its result, after which it must not be
    /// driven.
    pub fn is_resolved(&self) -> (resolved: bool)
        ensures
            resolved == (self@ is None),
    {
        self.context.is_none()
    }

    /// One drive step: `inner_res` is what driving the wrapped computation
    /// once has given.
    ///
    /// "Not ready" is handed on and the context stays. A success is handed on
    /// unchanged and the context is dropped. A failure is joined with the
    /// context, which is thereby used up.
    pub fn poll<T, E>(&mut self, inner_res: Poll<Result<T, E>>) -> (res: Poll<Result<T, E2>>) where
        C: IntoError<E2, Source = E>,
        E2: ErrorCompat,

        requires
            old(self)@ is Some,
        ensures
            final(self)@ == payload_after(old(self)@, inner_res),
            resolves(eager_conversion::<C, E, E2>(), old(self)@, inner_res, res),
    {
        match inner_res {
            Poll::Pending => Poll::Pending,
            Poll::Ready(Ok(value)) => {
                self.context = None;
                Poll::Ready(Ok(value))
            },
            Poll::Ready(Err(error)) => {
                let context = self.context.take().expect("Cannot poll Context after it resolves");
                Poll::Ready(Err(context.into_error(error)))
            },
        }
    }
}

/// Adapter that builds the context only when the computation it wraps fails.
#[derive(Debug)]
pub struct WithContext<F, E2> {
    context: Option<F>,
    _e2: PhantomData<E2>,
}

impl<F, E2> View for WithContext<F, E2> {
    type V = Option<F>;

    /// The operation while it is still to be called, `None` once the adapter
    /// has resolved.
    closed spec fn view(&self) -> Option<F> {
        self.context
    }
}

impl<F, E2> WithContext<F, E2> {
    /// An adapter that has not been driven yet and holds the operation
    /// `context`, which is not called here.
    pub fn new<C>(context: F) -> (adapter: Self) where
        F: FnOnce() -> C,
        C: IntoError<E2>,
        E2: ErrorCompat,

        ensures
            adapter@ == Some(context),
    {
        WithContext { context: Some(context), _e2: PhantomData }
    }

    /// Whether the adapter has reported its result, after which it must not be
    /// driven.
    pub fn is_resolved(&self) -> (resolved: bool)
        ensures
            resolved == (self@ is None),
    {
        self.context.is_none()
    }

    /// One drive step: `inner_res` is what driving the wrapped computation
    /// once has given.
    ///
    /// "Not ready" is handed on and the operation stays, uncalled. A success
    /// is handed on unchanged and the operation is dropped, uncalled. On a
    /// failure the operation is called and the context it gives is joined with
    /// the failure.
    ///
    /// The operation has to be callable only where `inner_res` is a failure:
    /// on any other outcome nothing is known that would allow a call of it.
    pub fn poll<T, E, C>(&mut self, inner_res: Poll<Result<T, E>>) -> (res: Poll<Result<T, E2>>) where
        F: FnOnce() -> C,
        C: IntoError<E2, Source = E>,
        E2: ErrorCompat,

        requires
            old(self)@ matches Some(factory) && (inner_res matches Poll::Ready(Err(_))
                ==> call_requires(factory, ())),
        ensures
            final(self)@ == payload_after(old(self)@, inner_res),
            resolves(lazy_conversion::<F, C, E, E2>(), old(self)@, inner_res, res),
    {
        match inner_res {
            Poll::Pending => Poll::Pending,
            Poll::Ready(Ok(value)) => {
                self.context = None;
                Poll::Ready(Ok(value))
            },
            Poll::Ready(Err(error)) => {
                let factory = self.context.take().expect("Cannot poll Context after it resolves");
                let context = factory();
                assert(produces(factory, context));
                Poll::Ready(Err(context.into_error(error)))
            },
        }
    }
}

/// A run grows by one step: where the payload is still there after `inputs`,
/// a further step that reports what that payload allows makes a run again.
pub proof fn lemma_step_extends_run<P, T, E, E2>(
    conversion: spec_fn(P, E, E2) -> bool,
    payload: Option<P>,
    inputs: Seq<Poll<Result<T, E>>>,
    outputs: Seq<Poll<Result<T, E2>>>,
    inner_res: Poll<Result<T, E>>,
    res: Poll<Result<T, E2>>,
)
    requires
        drives(conversion, payload, inputs, outputs),
        outputs.len() == inputs.len(),
        payload_after_all(payload, inputs) is Some,
        resolves(conversion, payload_after_all(payload, inputs), inner_res, res),
    ensures
        drives(conversion, payload, inputs.push(inner_res), outputs.push(res)),
        payload_after_all(payload, inputs.push(inner_res)) == payload_after(
            payload_after_all(payload, inputs),
            inner_res,
        ),
    decreases inputs.len(),
{
    let more_in = inputs.push(inner_res);
    let more_out = outputs.push(res);
    if inputs.len() == 0 {
        assert(more_in.skip(1).len() == 0);
        assert(more_out.skip(1).len() == 0);
        assert(payload_after_all(payload_after(payload, inner_res), more_in.skip(1))
            == payload_after(payload, inner_res));
        assert(drives(
            conversion,
            payload_after(payload, inner_res),
            more_in.skip(1),
            more_out.skip(1),
        ));
    } else {
        assert(more_in.skip(1) == inputs.skip(1).push(inner_res));
        assert(more_out.skip(1) == outputs.skip(1).push(res));
        assert(more_in[0] == inputs[0]);
        assert(more_out[0] == outputs[0]);
        lemma_step_extends_run(
            conversion,
            payload_after(payload, inputs[0]),
            inputs.skip(1),
            outputs.skip(1),
            inner_res,
            res,
        );
    }
}

/// A step that finds the wrapped computation not ready reports "not ready"
/// and leaves the payload where it is.
pub proof fn lemma_pending_keeps_payload<P, T, E, E2>(
    conversion: spec_fn(P, E, E2) -> bool,
    payload: Option<P>,
    res: Poll<Result<T, E2>>,
)
    requires
        resolves(conversion, payload, Poll::<Result<T, E>>::Pending, res),
    ensures
        res is Pending,
        payload_after(payload, Poll::<Result<T, E>>::Pending) == payload,
{
}

/// Once the wrapped computation has given its result, success or failure,
/// the payload is gone, and no run can continue from there: a further step
/// has no payload to find.
pub proof fn lemma_resolution_is_final<P, T, E, E2>(
    conversion: spec_fn(P, E, E2) -> bool,
    payload: Option<P>,
    inner_res: Poll<Result<T, E>>,
    inputs: Seq<Poll<Result<T, E>>>,
    outputs: Seq<Poll<Result<T, E2>>>,
)
    requires
        inner_res is Ready,
        drives(conversion, payload_after(payload, inner_res), inputs, outputs),
    ensures
        payload_after(payload, inner_res) is None,
        inputs.len() == 0,
{
}

/// The shape of every run: the payload was present at the start, each step
/// but the last found the wrapped computation not ready and reported so, and
/// the last step reported what the payload held at the start allows.
pub proof fn lemma_run_shape<P, T, E, E2>(
    conversion: spec_fn(P, E, E2) -> bool,
    payload: Option<P>,
    inputs: Seq<Poll<Result<T, E>>>,
    outputs: Seq<Poll<Result<T, E2>>>,
)
    requires
        drives(conversion, payload, inputs, outputs),
        inputs.len() > 0,
    ensures
        payload is Some,
        outputs.len() == inputs.len(),
        forall|i: int|
            0 <= i < inputs.len() - 1 ==> (#[trigger] inputs[i]) is Pending && outputs[i] is Pending,
        resolves(conversion, payload, inputs.last(), outputs.last()),
        payload_after_all(payload, inputs) == payload_after(payload, inputs.last()),
    decreases inputs.len(),
{
    let rest_in = inputs.skip(1);
    let rest_out = outputs.skip(1);
    if inputs.len() > 1 {
        lemma_run_shape(conversion, payload_after(payload, inputs[0]), rest_in, rest_out);
        assert(inputs[0] is Pending);
        assert(inputs.last() == rest_in.last());
        assert(outputs.last() == rest_out.last());
        assert forall|i: int| 0 <= i < inputs.len() - 1 implies (#[trigger] inputs[i]) is Pending
            && outputs[i] is Pending by {
            if i > 0 {
                assert(inputs[i] == rest_in[i - 1]);
                assert(outputs[i] == rest_out[i - 1]);
            }
        }
    } else {
        assert(rest_in.len() == 0);
        assert(payload_after_all(payload_after(payload, inputs[0]), rest_in) == payload_after(
            payload,
            inputs[0],
        ));
    }
}

/// A computation that succeeds with `value` after any number of "not ready"
/// steps: the adapter, eager or lazy, reports "not ready" as often and then
/// the success with `value` unchanged, and its payload is gone.
pub proof fn lemma_success_passes_unchanged<P, T, E, E2>(
    conversion: spec_fn(P, E, E2) -> bool,
    payload: Option<P>,
    inputs: Seq<Poll<Result<T, E>>>,
    outputs: Seq<Poll<Result<T, E2>>>,
    value: T,
)
    requires
        drives(conversion, payload, inputs, outputs),
        inputs.len() > 0,
        inputs.last() == Poll::<Result<T, E>>::Ready(Ok(value)),
    ensures
        outputs.len() == inputs.len(),
        forall|i: int| 0 <= i < outputs.len() - 1 ==> (#[trigger] outputs[i]) is Pending,
        outputs.last() == Poll::<Result<T, E2>>::Ready(Ok(value)),
        payload_after_all(payload, inputs) is None,
{
    lemma_run_shape(conversion, payload, inputs, outputs);
    assert forall|i: int| 0 <= i < outputs.len() - 1 implies (#[trigger] outputs[i]) is Pending by {
        assert(inputs[i] is Pending);
    }
}

/// A computation that fails with `source` after any number of "not ready"
/// steps, wrapped with the context value `context`: the eager adapter
/// reports "not ready" as often and then a failure, and that failure is what
/// joining `context` with `source` gives. The context is gone after it.
pub proof fn lemma_eager_failure_is_converted<C, T, E, E2>(
    context: C,
    inputs: Seq<Poll<Result<T, E>>>,
    outputs: Seq<Poll<Result<T, E2>>>,
    source: E,
) where C: IntoError<E2, Source = E>
    requires
        drives(eager_conversion::<C, E, E2>(), Some(context), inputs, outputs),
        inputs.len() > 0,
        inputs.last() == Poll::<Result<T, E>>::Ready(Err(source)),
    ensures
        outputs.len() == inputs.len(),
        forall|i: int| 0 <= i < outputs.len() - 1 ==> (#[trigger] outputs[i]) is Pending,
        outputs.last() matches Poll::Ready(Err(error)) && converts(context, source, error),
        payload_after_all(Some(context), inputs) is None,
{
    lemma_run_shape(eager_conversion::<C, E, E2>(), Some(context), inputs, outputs);
    assert forall|i: int| 0 <= i < outputs.len() - 1 implies (#[trigger] outputs[i]) is Pending by {
        assert(inputs[i] is Pending);
    }
}

/// A computation that fails with `source` after any number of "not ready"
/// steps, wrapped with the operation `factory`: the lazy adapter reports "not
/// ready" as often and then a failure, and that failure is what joining a
/// context that `factory` gives with `source` gives. The operation is gone
/// after it.
pub proof fn lemma_lazy_failure_is_converted<F, C, T, E, E2>(
    factory: F,
    inputs: Seq<Poll<Result<T, E>>>,
    outputs: Seq<Poll<Result<T, E2>>>,
    source: E,
) where F: FnOnce() -> C, C: IntoError<E2, Source = E>
    requires
        drives(lazy_conversion::<F, C, E, E2>(), Some(factory), inputs, outputs),
        inputs.len() > 0,
        inputs.last() == Poll::<Result<T, E>>::Ready(Err(source)),
    ensures
        outputs.len() == inputs.len(),
        forall|i: int| 0 <= i < outputs.len() - 1 ==> (#[trigger] outputs[i]) is Pending,
        outputs.last() matches Poll::Ready(Err(error)) && exists|context: C| #[trigger]
            produces(factory, context) && converts(context, source, error),
        payload_after_all(Some(factory), inputs) is None,
{
    lemma_run_shape(lazy_conversion::<F, C, E, E2>(), Some(factory), inputs, outputs);
    assert forall|i: int| 0 <= i < outputs.len() - 1 implies (#[trigger] outputs[i]) is Pending by {
        assert(inputs[i] is Pending);
    }
}

} // verus!
