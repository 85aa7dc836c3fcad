use async_component::{
    enter_guarded, run, with_current_context, AsyncComponentExt, CallbackId,
    Child, ComponentPollFlags, ComponentStream, Composite, CompositeBuilder, ContextScope,
    ControlFlow, Executor, ExecutorPollEvent, Invocation, LoopEvent, StateCell, StateContext,
    WakeHandle, WakeSignal,
};
use std::sync::atomic::{AtomicUsize, Ordering};
use std::sync::Arc;
use std::task::{Poll, Wake, Waker};

type Inner = Composite<StateCell<()>, u32, (), ()>;
type Root = Composite<Inner, (), (), ()>;

fn handle(id: u64) -> WakeHandle {
    WakeHandle::new(id)
}

fn root() -> Root {
    let inner: Inner = CompositeBuilder::new()
        .state(StateCell::new(0), Some(CallbackId { id: 1 }))
        .build();
    CompositeBuilder::new()
        .component(inner, None)
        .state(StateCell::new(()), None)
        .build()
}

fn bump(root: &mut Root, cx: &mut StateContext) {
    if let Some(Child::Component(inner)) = root.child_mut(0) {
        if let Some(Child::State(counter)) = inner.child_mut(0) {
            *counter.get_mut(cx) += 1;
        }
    }
}

fn counter(root: &Root) -> u32 {
    match root.get(0).map(|field| &field.child) {
        Some(Child::Component(inner)) => match inner.get(0).map(|field| &field.child) {
            Some(Child::State(counter)) => *counter.get(),
            _ => panic!("the counter is a tracked cell"),
        },
        _ => panic!("field 0 is the nested composite"),
    }
}

struct Counting(AtomicUsize);

impl Wake for Counting {
    fn wake(self: Arc<Self>) {
        self.0.fetch_add(1, Ordering::SeqCst);
    }
}

#[test]
fn signal_coalesces_wakes() {
    let mut cx = StateContext::new(handle(1));
    let mut signal = WakeSignal::new();
    assert!(signal.is_scheduled());
    signal.register(handle(50));
    assert!(!signal.wake(&mut cx));
    assert_eq!(cx.pending_wakes(), 0);
    assert!(signal.begin_poll());
    assert!(!signal.is_scheduled());
    assert!(signal.wake(&mut cx));
    assert!(!signal.wake(&mut cx));
    assert!(!signal.wake(&mut cx));
    assert!(signal.is_scheduled());
    assert_eq!(cx.take_woken(), vec![handle(50)]);
    assert!(signal.begin_poll());
    assert!(!signal.begin_poll());
}

#[test]
fn signal_without_waker_still_schedules() {
    let mut cx = StateContext::new(handle(1));
    let mut signal = WakeSignal::new();
    assert!(signal.begin_poll());
    assert!(signal.wake(&mut cx));
    assert!(signal.is_scheduled());
    assert_eq!(cx.pending_wakes(), 0);
}

#[test]
fn signal_register_replaces_waker() {
    let mut cx = StateContext::new(handle(1));
    let mut signal = WakeSignal::new();
    signal.register(handle(50));
    signal.register(handle(51));
    signal.begin_poll();
    assert!(signal.wake(&mut cx));
    assert_eq!(cx.take_woken(), vec![handle(51)]);
}

#[test]
fn three_mutations_fire_the_loop_once() {
    let mut cx = StateContext::new(handle(0));
    let mut executor = Executor::new(handle(1), handle(100));
    let mut root = root();
    assert!(executor.is_scheduled());
    assert_eq!(
        run(&mut executor, &mut root, LoopEvent::EventsCleared, false, &mut cx),
        ControlFlow::Poll
    );
    assert!(!executor.is_scheduled());
    assert_eq!(
        run(&mut executor, &mut root, LoopEvent::EventsCleared, false, &mut cx),
        ControlFlow::Wait
    );
    if let Some(Child::Component(inner)) = root.child_mut(0) {
        let _ = inner.take_calls();
    }
    assert_eq!(cx.pending_wakes(), 0);

    bump(&mut root, &mut cx);
    bump(&mut root, &mut cx);
    bump(&mut root, &mut cx);
    let wakes = cx.take_woken();
    assert_eq!(wakes, vec![handle(1)]);
    assert!(executor.deliver(&wakes, &mut cx));
    assert!(!executor.deliver(&wakes, &mut cx));
    assert!(!executor.wake_by_ref(&mut cx));
    assert_eq!(cx.take_woken(), vec![handle(100)]);
    assert!(executor.is_scheduled());

    assert_eq!(
        executor.poll_component(&mut root, &mut cx),
        Poll::Ready(ComponentPollFlags::state())
    );
    assert_eq!(counter(&root), 3);
    if let Some(Child::Component(inner)) = root.child_mut(0) {
        assert_eq!(
            inner.take_calls(),
            vec![Invocation::State { callback: CallbackId { id: 1 } }]
        );
    }
    assert_eq!(executor.poll_component(&mut root, &mut cx), Poll::Pending);
}

#[test]
fn deliver_ignores_foreign_handles() {
    let mut cx = StateContext::new(handle(0));
    let mut executor = Executor::new(handle(1), handle(100));
    let mut root = root();
    let _ = executor.poll_component(&mut root, &mut cx);
    assert!(!executor.deliver(&vec![handle(2), handle(3)], &mut cx));
    assert!(!executor.deliver(&Vec::new(), &mut cx));
    assert!(!executor.is_scheduled());
    assert_eq!(cx.pending_wakes(), 0);
    assert!(executor.deliver(&vec![handle(2), handle(1), handle(1)], &mut cx));
    assert_eq!(cx.take_woken(), vec![handle(100)]);
}

#[test]
fn run_step_by_event() {
    let mut cx = StateContext::new(handle(0));
    let mut executor = Executor::new(handle(1), handle(100));
    let mut root = root();
    assert_eq!(
        run(&mut executor, &mut root, LoopEvent::Other, false, &mut cx),
        ControlFlow::Wait
    );
    assert_eq!(
        run(&mut executor, &mut root, LoopEvent::UserEvent(ExecutorPollEvent::new()), false, &mut cx),
        ControlFlow::Wait
    );
    assert_eq!(
        run(&mut executor, &mut root, LoopEvent::EventsCleared, true, &mut cx),
        ControlFlow::Exit
    );
    assert!(executor.is_scheduled());
    assert_eq!(
        run(&mut executor, &mut root, LoopEvent::EventsCleared, false, &mut cx),
        ControlFlow::Poll
    );
    assert_eq!(cx.task_context(), handle(1));
}

#[test]
fn component_stream_polls_when_asked() {
    let counting = Arc::new(Counting(AtomicUsize::new(0)));
    let waker = Waker::from(counting.clone());
    let mut stream = ComponentStream::new(root(), handle(1));
    assert_eq!(stream.poll_next(&waker), Poll::Ready(Some(ComponentPollFlags::state())));
    assert_eq!(stream.poll_next(&waker), Poll::Pending);
    assert_eq!(counting.0.load(Ordering::SeqCst), 0);

    {
        let (root, cx) = stream.enter();
        bump(root, cx);
        bump(root, cx);
    }
    assert!(stream.flush());
    assert!(!stream.flush());
    assert_eq!(counting.0.load(Ordering::SeqCst), 1);
    assert_eq!(counter(stream.get()), 2);
    assert_eq!(stream.poll_next(&waker), Poll::Ready(Some(ComponentPollFlags::state())));
    assert_eq!(stream.poll_next(&waker), Poll::Pending);
}

#[test]
fn shared_signal_wakes_registered_waker() {
    let counting = Arc::new(Counting(AtomicUsize::new(0)));
    let waker = Waker::from(counting.clone());
    let mut stream = ComponentStream::new(root(), handle(1));
    let shared = stream.shared();
    shared.wake_by_ref();
    assert_eq!(counting.0.load(Ordering::SeqCst), 0);
    assert_eq!(stream.poll_next(&waker), Poll::Ready(Some(ComponentPollFlags::state())));
    assert_eq!(stream.poll_next(&waker), Poll::Pending);
    shared.wake_by_ref();
    assert_eq!(counting.0.load(Ordering::SeqCst), 1);
    assert_eq!(stream.poll_next(&waker), Poll::Pending);
    assert!(shared.take_updated() == false);
    shared.register(&waker);
    shared.wake_by_ref();
    assert_eq!(counting.0.load(Ordering::SeqCst), 2);
    assert!(shared.take_updated());
}

#[test]
fn poll_updated_follows_the_flag() {
    let mut stream = ComponentStream::new(root(), handle(1));
    assert_eq!(stream.poll_updated(false), Poll::Pending);
    assert_eq!(stream.poll_updated(true), Poll::Ready(Some(ComponentPollFlags::state())));
    assert_eq!(stream.poll_updated(true), Poll::Pending);
    assert_eq!(stream.poll_updated(false), Poll::Pending);
}

#[test]
fn next_and_stream_adapters() {
    let mut cx = StateContext::new(handle(1));
    let mut cell = StateCell::new(1u8);
    assert_eq!(cell.next().poll(&mut cx), Poll::Ready(ComponentPollFlags::state()));
    assert_eq!(cell.next().poll(&mut cx), Poll::Pending);
    StateCell::invalidate(&mut cell, &mut cx);
    let mut stream = cell.into_stream();
    assert_eq!(stream.poll_next(&mut cx), Poll::Ready(Some(ComponentPollFlags::state())));
    assert_eq!(stream.poll_next(&mut cx), Poll::Pending);
}

#[test]
fn context_scope() {
    let mut scope = ContextScope::new();
    assert!(!scope.is_entered());
    assert!(scope.current_mut().is_none());
    assert!(scope.leave().is_none());
    enter_guarded(&mut scope, StateContext::new(handle(4)));
    assert!(scope.is_entered());
    assert_eq!(with_current_context(&scope, |cx| cx.task_context()), handle(4));
    if let Some(cx) = scope.current_mut() {
        cx.signal();
    }
    let left = scope.leave();
    assert!(!scope.is_entered());
    assert_eq!(left.map(|mut cx| cx.take_woken()), Some(vec![handle(4)]));
    enter_guarded(&mut scope, StateContext::new(handle(5)));
    assert_eq!(with_current_context(&scope, |cx| cx.task_context()), handle(5));
}
