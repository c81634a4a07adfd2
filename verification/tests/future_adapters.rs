use core::task::Poll;
use snafu_futures::futures::future::{Context, WithContext};
use snafu_futures::{ErrorCompat, IntoError};
use std::cell::Cell;
use std::rc::Rc;

#[derive(Debug, Clone, PartialEq)]
enum Source {
    IoFail,
    Timeout(u32),
}

/// A context that counts, in `joined`, how often it has been joined with a
/// failure.
#[derive(Debug, Clone)]
struct Ctx {
    path: String,
    joined: Rc<Cell<u32>>,
}

impl Ctx {
    fn new(path: &str) -> (Ctx, Rc<Cell<u32>>) {
        let joined = Rc::new(Cell::new(0));
        (Ctx { path: String::from(path), joined: joined.clone() }, joined)
    }
}

#[derive(Debug, PartialEq)]
struct Final {
    path: String,
    source: Source,
}

impl ErrorCompat for Final {}

impl IntoError<Final> for Ctx {
    type Source = Source;

    fn into_error(self, source: Source) -> Final {
        self.joined.set(self.joined.get() + 1);
        Final { path: self.path, source }
    }
}

fn converted(path: &str, source: Source) -> Final {
    Final { path: String::from(path), source }
}

fn pending() -> Poll<Result<u32, Source>> {
    Poll::Pending
}

fn success(value: u32) -> Poll<Result<u32, Source>> {
    Poll::Ready(Ok(value))
}

fn failure(source: Source) -> Poll<Result<u32, Source>> {
    Poll::Ready(Err(source))
}

#[test]
fn eager_failure_is_joined_with_the_context() {
    let (ctx, joined) = Ctx::new("a.txt");
    let mut adapter: Context<Ctx, Final> = Context::new(ctx);
    assert!(!adapter.is_resolved());
    assert_eq!(joined.get(), 0);

    let res = adapter.poll(failure(Source::IoFail));

    assert_eq!(res, Poll::Ready(Err(converted("a.txt", Source::IoFail))));
    assert_eq!(joined.get(), 1);
    assert!(adapter.is_resolved());
}

#[test]
fn eager_success_passes_unchanged() {
    let (ctx, joined) = Ctx::new("a.txt");
    let mut adapter: Context<Ctx, Final> = Context::new(ctx);

    let res = adapter.poll(success(42));

    assert_eq!(res, Poll::Ready(Ok(42)));
    assert_eq!(joined.get(), 0);
    assert!(adapter.is_resolved());
}

#[test]
fn eager_success_after_pending_steps() {
    let (ctx, joined) = Ctx::new("b.txt");
    let mut adapter: Context<Ctx, Final> = Context::new(ctx);

    assert_eq!(adapter.poll(pending()), Poll::Pending);
    assert_eq!(adapter.poll(pending()), Poll::Pending);
    assert_eq!(adapter.poll(pending()), Poll::Pending);
    assert!(!adapter.is_resolved());
    assert_eq!(adapter.poll(success(7)), Poll::Ready(Ok(7)));

    assert_eq!(joined.get(), 0);
    assert!(adapter.is_resolved());
}

#[test]
fn eager_failure_after_pending_steps() {
    let (ctx, joined) = Ctx::new("c.txt");
    let mut adapter: Context<Ctx, Final> = Context::new(ctx);

    assert_eq!(adapter.poll(pending()), Poll::Pending);
    assert_eq!(joined.get(), 0);
    assert_eq!(adapter.poll(pending()), Poll::Pending);
    assert_eq!(joined.get(), 0);
    let res = adapter.poll(failure(Source::Timeout(30)));

    assert_eq!(res, Poll::Ready(Err(converted("c.txt", Source::Timeout(30)))));
    assert_eq!(joined.get(), 1);
    assert!(adapter.is_resolved());
}

#[test]
fn eager_pending_keeps_the_context() {
    let (ctx, joined) = Ctx::new("d.txt");
    let mut adapter: Context<Ctx, Final> = Context::new(ctx);

    for _ in 0..10 {
        assert_eq!(adapter.poll(pending()), Poll::Pending);
        assert!(!adapter.is_resolved());
        assert_eq!(joined.get(), 0);
    }
    // The context that was stored at the start is still the one that is used.
    let res = adapter.poll(failure(Source::IoFail));
    assert_eq!(res, Poll::Ready(Err(converted("d.txt", Source::IoFail))));
}

#[test]
fn eager_context_is_dropped_on_success() {
    let (ctx, joined) = Ctx::new("e.txt");
    let mut adapter: Context<Ctx, Final> = Context::new(ctx);
    // One count for `joined` here, one for the copy inside the stored context.
    assert_eq!(Rc::strong_count(&joined), 2);

    assert_eq!(adapter.poll(pending()), Poll::Pending);
    assert_eq!(Rc::strong_count(&joined), 2);
    assert_eq!(adapter.poll(success(1)), Poll::Ready(Ok(1)));

    assert_eq!(Rc::strong_count(&joined), 1);
    assert_eq!(joined.get(), 0);
}

#[test]
fn eager_context_is_used_up_on_failure() {
    let (ctx, joined) = Ctx::new("f.txt");
    let mut adapter: Context<Ctx, Final> = Context::new(ctx);
    assert_eq!(Rc::strong_count(&joined), 2);

    let res = adapter.poll(failure(Source::IoFail));

    assert!(matches!(res, Poll::Ready(Err(_))));
    assert_eq!(Rc::strong_count(&joined), 1);
    assert_eq!(joined.get(), 1);
}

#[test]
fn lazy_failure_calls_the_operation_once() {
    let calls = Rc::new(Cell::new(0u32));
    let (ctx, joined) = Ctx::new("lazy.txt");
    let seen = calls.clone();
    let mut adapter = WithContext::<_, Final>::new(move || {
        seen.set(seen.get() + 1);
        ctx
    });
    assert!(!adapter.is_resolved());
    assert_eq!(calls.get(), 0);

    let res = adapter.poll(failure(Source::IoFail));

    assert_eq!(res, Poll::Ready(Err(converted("lazy.txt", Source::IoFail))));
    assert_eq!(calls.get(), 1);
    assert_eq!(joined.get(), 1);
    assert!(adapter.is_resolved());
}

#[test]
fn lazy_operation_is_not_called_before_the_failure() {
    let calls = Rc::new(Cell::new(0u32));
    let (ctx, joined) = Ctx::new("late.txt");
    let seen = calls.clone();
    let mut adapter = WithContext::<_, Final>::new(move || {
        seen.set(seen.get() + 1);
        ctx
    });

    for _ in 0..5 {
        assert_eq!(adapter.poll(pending()), Poll::Pending);
        assert_eq!(calls.get(), 0);
        assert_eq!(joined.get(), 0);
        assert!(!adapter.is_resolved());
    }
    let res = adapter.poll(failure(Source::Timeout(5)));

    assert_eq!(res, Poll::Ready(Err(converted("late.txt", Source::Timeout(5)))));
    assert_eq!(calls.get(), 1);
    assert_eq!(joined.get(), 1);
}

#[test]
fn lazy_success_never_calls_the_operation() {
    let calls = Rc::new(Cell::new(0u32));
    let (ctx, joined) = Ctx::new("unused.txt");
    let seen = calls.clone();
    let mut adapter = WithContext::<_, Final>::new(move || {
        seen.set(seen.get() + 1);
        ctx
    });

    assert_eq!(adapter.poll(pending()), Poll::Pending);
    assert_eq!(adapter.poll(success(99)), Poll::Ready(Ok(99)));

    assert_eq!(calls.get(), 0);
    assert_eq!(joined.get(), 0);
    assert!(adapter.is_resolved());
}

#[test]
fn lazy_operation_is_dropped_on_success() {
    let calls = Rc::new(Cell::new(0u32));
    let (ctx, _joined) = Ctx::new("gone.txt");
    let seen = calls.clone();
    let mut adapter = WithContext::<_, Final>::new(move || {
        seen.set(seen.get() + 1);
        ctx
    });
    assert_eq!(Rc::strong_count(&calls), 2);

    assert_eq!(adapter.poll(success(3)), Poll::Ready(Ok(3)));

    assert_eq!(Rc::strong_count(&calls), 1);
    assert_eq!(calls.get(), 0);
}

#[test]
fn lazy_context_is_built_when_the_failure_is_seen() {
    // The operation reads `stage` when it is called, not when it is stored.
    let stage = Rc::new(Cell::new(1u32));
    let read = stage.clone();
    let mut adapter = WithContext::<_, Final>::new(move || {
        let (ctx, _) = Ctx::new(&format!("stage-{}", read.get()));
        ctx
    });

    stage.set(2);
    assert_eq!(adapter.poll(pending()), Poll::Pending);
    stage.set(3);
    let res = adapter.poll(failure(Source::IoFail));

    assert_eq!(res, Poll::Ready(Err(converted("stage-3", Source::IoFail))));
}

#[test]
fn eager_and_lazy_agree_on_success() {
    let (eager_ctx, _) = Ctx::new("x");
    let (lazy_ctx, _) = Ctx::new("x");
    let mut eager: Context<Ctx, Final> = Context::new(eager_ctx);
    let mut lazy = WithContext::<_, Final>::new(move || lazy_ctx);

    assert_eq!(eager.poll(pending()), lazy.poll(pending()));
    assert_eq!(eager.poll(success(11)), lazy.poll(success(11)));
    assert_eq!(eager.is_resolved(), lazy.is_resolved());
}

#[test]
fn eager_and_lazy_agree_on_failure() {
    let (eager_ctx, _) = Ctx::new("y");
    let (lazy_ctx, _) = Ctx::new("y");
    let mut eager: Context<Ctx, Final> = Context::new(eager_ctx);
    let mut lazy = WithContext::<_, Final>::new(move || lazy_ctx);

    let from_eager = eager.poll(failure(Source::Timeout(1)));
    let from_lazy = lazy.poll(failure(Source::Timeout(1)));

    assert_eq!(from_eager, Poll::Ready(Err(converted("y", Source::Timeout(1)))));
    assert_eq!(from_eager, from_lazy);
}

#[test]
fn adapters_resolve_on_either_result() {
    let (a, _) = Ctx::new("a");
    let (b, _) = Ctx::new("b");
    let (c, _) = Ctx::new("c");
    let (d, _) = Ctx::new("d");
    let mut eager_ok: Context<Ctx, Final> = Context::new(a);
    let mut eager_err: Context<Ctx, Final> = Context::new(b);
    let mut lazy_ok = WithContext::<_, Final>::new(move || c);
    let mut lazy_err = WithContext::<_, Final>::new(move || d);

    assert!(!eager_ok.is_resolved());
    assert!(!eager_err.is_resolved());
    assert!(!lazy_ok.is_resolved());
    assert!(!lazy_err.is_resolved());

    let _ = eager_ok.poll(success(1));
    let _ = eager_err.poll(failure(Source::IoFail));
    let _ = lazy_ok.poll(success(1));
    let _ = lazy_err.poll(failure(Source::IoFail));

    assert!(eager_ok.is_resolved());
    assert!(eager_err.is_resolved());
    assert!(lazy_ok.is_resolved());
    assert!(lazy_err.is_resolved());
}

#[test]
fn lazy_success_with_seven_leaves_the_counter_at_zero() {
    let n = Rc::new(Cell::new(0u32));
    let seen = n.clone();
    let mut adapter = WithContext::<_, Final>::new(move || {
        seen.set(seen.get() + 1);
        let (ctx, _) = Ctx::new("a.txt");
        ctx
    });

    let res = adapter.poll(success(7));

    assert_eq!(res, Poll::Ready(Ok(7)));
    assert_eq!(n.get(), 0);
    assert!(adapter.is_resolved());
}
