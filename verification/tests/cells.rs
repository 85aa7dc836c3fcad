use async_component::{
    AsyncComponent, ComponentPollFlags, State, StateCell, StateContext, StreamCell, WakeHandle,
};
use std::task::Poll;

fn handle(id: u64) -> WakeHandle {
    WakeHandle::new(id)
}

#[test]
fn new_cell_reports_once() {
    let cx = StateContext::new(handle(1));
    let mut cell = StateCell::new(5u32);
    assert!(cell.is_changed());
    assert!(StateCell::refresh(&mut cell, &cx));
    assert!(!StateCell::refresh(&mut cell, &cx));
    assert!(!StateCell::refresh(&mut cell, &cx));
    assert_eq!(*cell.get(), 5);
}

#[test]
fn read_access_leaves_marker_alone() {
    let cx = StateContext::new(handle(1));
    let mut cell = StateCell::new(String::from("a"));
    assert!(StateCell::refresh(&mut cell, &cx));
    assert_eq!(cell.get().as_str(), "a");
    assert!(!cell.is_changed());
    assert!(!StateCell::refresh(&mut cell, &cx));
}

#[test]
fn marks_between_polls_coalesce() {
    let mut cx = StateContext::new(handle(7));
    let mut cell = StateCell::new(0u8);
    assert!(StateCell::refresh(&mut cell, &cx));
    assert!(!StateCell::refresh(&mut cell, &cx));
    for _ in 0..5 {
        StateCell::invalidate(&mut cell, &mut cx);
    }
    assert_eq!(cx.take_woken(), vec![handle(7)]);
    assert!(StateCell::refresh(&mut cell, &cx));
    assert!(!StateCell::refresh(&mut cell, &cx));
}

#[test]
fn mark_without_registered_handle_wakes_nobody() {
    let mut cx = StateContext::new(handle(7));
    let mut cell = StateCell::new(0u8);
    StateCell::invalidate(&mut cell, &mut cx);
    assert!(StateCell::refresh(&mut cell, &cx));
    StateCell::invalidate(&mut cell, &mut cx);
    assert_eq!(cx.pending_wakes(), 0);
    assert!(StateCell::refresh(&mut cell, &cx));
}

#[test]
fn mutable_access_marks_and_wakes() {
    let mut cx = StateContext::new(handle(3));
    let mut cell = StateCell::new(10u32);
    assert!(StateCell::refresh(&mut cell, &cx));
    assert!(!StateCell::refresh(&mut cell, &cx));
    *cell.get_mut(&mut cx) += 1;
    *cell.get_mut(&mut cx) += 1;
    assert_eq!(*cell.get(), 12);
    assert_eq!(cx.take_woken(), vec![handle(3)]);
    assert!(StateCell::refresh(&mut cell, &cx));
}

#[test]
fn mutable_access_marks_even_without_write() {
    let mut cx = StateContext::new(handle(3));
    let mut cell = StateCell::new(10u32);
    assert!(StateCell::refresh(&mut cell, &cx));
    let _ = cell.get_mut(&mut cx);
    assert!(cell.is_changed());
}

#[test]
fn set_replaces_value() {
    let mut cx = StateContext::new(handle(3));
    let mut cell = StateCell::new(1u32);
    assert!(StateCell::refresh(&mut cell, &cx));
    assert!(!StateCell::refresh(&mut cell, &cx));
    assert_eq!(cell.set(2, &mut cx), 1);
    assert_eq!(*cell.get(), 2);
    assert_eq!(cx.take_woken(), vec![handle(3)]);
    assert!(StateCell::refresh(&mut cell, &cx));
}

#[test]
fn poll_replaces_registered_handle() {
    let mut cx = StateContext::new(handle(1));
    let mut cell = StateCell::new(());
    assert!(StateCell::refresh(&mut cell, &cx));
    assert!(!StateCell::refresh(&mut cell, &cx));
    cx.set_waker(handle(2));
    assert!(!StateCell::refresh(&mut cell, &cx));
    StateCell::invalidate(&mut cell, &mut cx);
    assert_eq!(cx.take_woken(), vec![handle(2)]);
}

#[test]
fn release_wakes_registered_handle_once() {
    let mut cx = StateContext::new(handle(9));
    let mut cell = StateCell::new(4i64);
    assert!(StateCell::refresh(&mut cell, &cx));
    assert!(!StateCell::refresh(&mut cell, &cx));
    assert_eq!(cell.release(&mut cx), 4);
    assert_eq!(cx.take_woken(), vec![handle(9)]);
}

#[test]
fn release_of_changed_cell_wakes_nobody() {
    let mut cx = StateContext::new(handle(9));
    let cell = StateCell::new(4i64);
    assert_eq!(cell.release(&mut cx), 4);
    assert_eq!(cx.pending_wakes(), 0);

    let mut polled = StateCell::new(4i64);
    assert!(StateCell::refresh(&mut polled, &cx));
    assert_eq!(polled.release(&mut cx), 4);
    assert_eq!(cx.pending_wakes(), 0);
}

#[test]
fn release_after_mark_wakes_once_in_all() {
    let mut cx = StateContext::new(handle(9));
    let mut cell = StateCell::new(4i64);
    assert!(StateCell::refresh(&mut cell, &cx));
    assert!(!StateCell::refresh(&mut cell, &cx));
    StateCell::invalidate(&mut cell, &mut cx);
    let _ = cell.release(&mut cx);
    assert_eq!(cx.take_woken(), vec![handle(9)]);
}

#[test]
fn cell_from_and_default() {
    let cx = StateContext::new(handle(1));
    let mut cell: StateCell<u32> = StateCell::from(3);
    assert_eq!(*cell.get(), 3);
    assert!(StateCell::refresh(&mut cell, &cx));
    let mut other: StateCell<u32> = StateCell::default();
    assert_eq!(*other.get(), 0);
    assert!(StateCell::refresh(&mut other, &cx));
}

#[test]
fn cell_state_update() {
    let cx = StateContext::new(handle(1));
    let mut cell = StateCell::new(1u8);
    assert_eq!(State::update(&mut cell, &cx), Some(()));
    assert_eq!(State::update(&mut cell, &cx), None);
}

#[test]
fn cell_as_component() {
    let mut cx = StateContext::new(handle(1));
    let mut cell = StateCell::new(1u8);
    assert_eq!(cell.poll_next(&mut cx), Poll::Ready(ComponentPollFlags::state()));
    assert_eq!(cell.poll_next(&mut cx), Poll::Pending);
    AsyncComponent::release(cell, &mut cx);
    assert_eq!(cx.take_woken(), vec![handle(1)]);
}

#[test]
fn stream_cell_delivers_in_order() {
    let cx = StateContext::new(handle(1));
    let mut cell: StreamCell<&str, u32> = StreamCell::new("source");
    assert_eq!(*cell.get(), "source");
    assert_eq!(State::update(&mut cell, &cx), None);
    cell.feed(1);
    cell.feed(2);
    cell.feed(3);
    assert_eq!(cell.pending(), 3);
    assert_eq!(State::update(&mut cell, &cx), Some(1));
    assert_eq!(State::update(&mut cell, &cx), Some(2));
    cell.feed(4);
    assert_eq!(State::update(&mut cell, &cx), Some(3));
    assert_eq!(State::update(&mut cell, &cx), Some(4));
    assert_eq!(State::update(&mut cell, &cx), None);
    assert_eq!(cell.pending(), 0);
}

#[test]
fn stream_cell_source_access() {
    let mut cell: StreamCell<Vec<u8>, u8> = StreamCell::new(vec![1, 2]);
    let next = cell.source_mut().pop();
    if let Some(value) = next {
        cell.feed(value);
    }
    assert_eq!(cell.pending(), 1);
    assert_eq!(cell.into_inner(), vec![1]);
}

#[test]
fn context_signal_and_wake() {
    let mut cx = StateContext::new(handle(5));
    assert_eq!(cx.task_context(), handle(5));
    cx.signal();
    cx.wake(handle(6));
    cx.wake_if(None);
    cx.wake_if(Some(handle(7)));
    assert_eq!(cx.pending_wakes(), 3);
    assert_eq!(cx.take_woken(), vec![handle(5), handle(6), handle(7)]);
    assert_eq!(cx.pending_wakes(), 0);
    cx.set_waker(handle(8));
    assert_eq!(cx.task_context(), handle(8));
}
