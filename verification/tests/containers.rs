use async_component::{
    AsyncComponent, BoxedComponent, ComponentPollFlags, HashMapComponent, OptionComponent,
    StateCell, StateContext, SuspenseComponent, VecComponent, WakeHandle,
};
use std::task::Poll;

fn handle(id: u64) -> WakeHandle {
    WakeHandle::new(id)
}

fn state() -> Poll<ComponentPollFlags> {
    Poll::Ready(ComponentPollFlags::state())
}

/// A cell that was polled once, so that it has nothing to report and holds
/// the handle `id`.
fn quiet_cell(value: u32, id: u64) -> StateCell<u32> {
    let cx = StateContext::new(handle(id));
    let mut cell = StateCell::new(value);
    assert!(StateCell::refresh(&mut cell, &cx));
    assert!(!StateCell::refresh(&mut cell, &cx));
    cell
}

#[test]
fn option_new_reports_structure_once() {
    let mut cx = StateContext::new(handle(1));
    let mut slot: OptionComponent<StateCell<u32>> = OptionComponent::new(None);
    assert!(slot.is_none());
    assert!(!slot.is_some());
    assert!(slot.get().is_none());
    assert_eq!(slot.poll_next(&mut cx), state());
    assert_eq!(slot.poll_next(&mut cx), Poll::Pending);
}

#[test]
fn option_set_marks_unconditionally() {
    let mut cx = StateContext::new(handle(1));
    let mut slot: OptionComponent<StateCell<u32>> = OptionComponent::default();
    assert_eq!(slot.poll_next(&mut cx), state());
    assert_eq!(slot.poll_next(&mut cx), Poll::Pending);
    slot.set(None, &mut cx);
    assert_eq!(cx.take_woken(), vec![handle(1)]);
    assert_eq!(slot.poll_next(&mut cx), state());
    assert_eq!(slot.poll_next(&mut cx), Poll::Pending);
    slot.set(Some(quiet_cell(3, 8)), &mut cx);
    assert!(slot.is_some());
    assert_eq!(slot.get().map(|cell| *cell.get()), Some(3));
    assert_eq!(cx.take_woken(), vec![handle(1)]);
    assert_eq!(slot.poll_next(&mut cx), state());
    assert_eq!(slot.poll_next(&mut cx), Poll::Pending);
}

#[test]
fn option_set_releases_previous_component() {
    let mut cx = StateContext::new(handle(1));
    let mut slot = OptionComponent::new(Some(quiet_cell(3, 8)));
    assert_eq!(slot.poll_next(&mut cx), state());
    assert_eq!(slot.poll_next(&mut cx), Poll::Pending);
    slot.set(Some(StateCell::new(4)), &mut cx);
    assert_eq!(cx.take_woken(), vec![handle(1), handle(1)]);
}

#[test]
fn option_child_change_is_reported_without_structural_mark() {
    let mut cx = StateContext::new(handle(1));
    let mut slot = OptionComponent::new(Some(StateCell::new(3u32)));
    assert_eq!(slot.poll_next(&mut cx), state());
    assert_eq!(slot.poll_next(&mut cx), Poll::Pending);
    if let Some(cell) = slot.get_mut() {
        *cell.get_mut(&mut cx) = 4;
    }
    assert_eq!(cx.take_woken(), vec![handle(1)]);
    assert_eq!(slot.poll_next(&mut cx), state());
    assert_eq!(slot.poll_next(&mut cx), Poll::Pending);
    assert_eq!(slot.get().map(|cell| *cell.get()), Some(4));
}

#[test]
fn option_take() {
    let mut cx = StateContext::new(handle(1));
    let mut slot = OptionComponent::new(Some(quiet_cell(3, 8)));
    assert_eq!(slot.poll_next(&mut cx), state());
    assert_eq!(slot.poll_next(&mut cx), Poll::Pending);
    assert_eq!(slot.take(&mut cx), Some(()));
    assert!(slot.is_none());
    assert_eq!(cx.take_woken(), vec![handle(1), handle(1)]);
    assert_eq!(slot.poll_next(&mut cx), state());
    assert_eq!(slot.poll_next(&mut cx), Poll::Pending);
    assert_eq!(slot.take(&mut cx), None);
    assert_eq!(cx.pending_wakes(), 0);
    assert_eq!(slot.poll_next(&mut cx), Poll::Pending);
}

#[test]
fn option_release() {
    let mut cx = StateContext::new(handle(1));
    let mut slot = OptionComponent::new(Some(StateCell::new(1u8)));
    assert_eq!(slot.poll_next(&mut cx), state());
    cx.set_waker(handle(2));
    assert_eq!(slot.poll_next(&mut cx), Poll::Pending);
    slot.release(&mut cx);
    assert_eq!(cx.take_woken(), vec![handle(2), handle(2)]);
}

#[test]
fn vec_push_is_reported() {
    let mut cx = StateContext::new(handle(1));
    let mut list: VecComponent<StateCell<u32>> = VecComponent::new();
    assert!(list.is_empty());
    assert_eq!(list.poll_next(&mut cx), state());
    assert_eq!(list.poll_next(&mut cx), Poll::Pending);
    list.push(quiet_cell(1, 1), &mut cx);
    assert_eq!(list.len(), 1);
    assert_eq!(cx.take_woken(), vec![handle(1)]);
    assert_eq!(list.poll_next(&mut cx), state());
    assert_eq!(list.poll_next(&mut cx), Poll::Pending);
}

#[test]
fn vec_retain_that_keeps_all_is_silent() {
    let mut cx = StateContext::new(handle(1));
    let mut list: VecComponent<StateCell<u32>> = VecComponent::default();
    list.push(StateCell::new(1), &mut cx);
    list.push(StateCell::new(2), &mut cx);
    assert_eq!(list.poll_next(&mut cx), state());
    assert_eq!(list.poll_next(&mut cx), Poll::Pending);
    list.retain(|_| true, &mut cx);
    assert_eq!(list.len(), 2);
    assert_eq!(cx.pending_wakes(), 0);
    assert_eq!(list.poll_next(&mut cx), Poll::Pending);
}

#[test]
fn vec_retain_removes_and_releases_in_order() {
    let mut cx = StateContext::new(handle(1));
    let mut list: VecComponent<StateCell<u32>> = VecComponent::new();
    list.push(quiet_cell(1, 11), &mut cx);
    list.push(quiet_cell(2, 12), &mut cx);
    list.push(quiet_cell(3, 13), &mut cx);
    list.push(quiet_cell(4, 14), &mut cx);
    assert_eq!(list.poll_next(&mut cx), state());
    assert_eq!(list.poll_next(&mut cx), Poll::Pending);
    list.retain(|cell| *cell.get() % 2 == 0, &mut cx);
    assert_eq!(list.len(), 2);
    assert_eq!(list.get(0).map(|cell| *cell.get()), Some(2));
    assert_eq!(list.get(1).map(|cell| *cell.get()), Some(4));
    assert_eq!(cx.take_woken(), vec![handle(1), handle(1), handle(1)]);
    assert_eq!(list.poll_next(&mut cx), state());
}

#[test]
fn vec_release_order_is_index_order() {
    let mut cx = StateContext::new(handle(1));
    let mut list: VecComponent<StateCell<u32>> = VecComponent::new();
    list.push(quiet_cell(1, 11), &mut cx);
    list.push(quiet_cell(2, 12), &mut cx);
    list.push(quiet_cell(3, 13), &mut cx);
    list.clear(&mut cx);
    assert!(list.is_empty());
    assert_eq!(cx.take_woken(), vec![handle(11), handle(12), handle(13)]);
    list.clear(&mut cx);
    assert_eq!(cx.pending_wakes(), 0);
}

#[test]
fn vec_clear_of_polled_list_marks_once() {
    let mut cx = StateContext::new(handle(1));
    let mut list: VecComponent<StateCell<u32>> = VecComponent::new();
    list.push(StateCell::new(1), &mut cx);
    assert_eq!(list.poll_next(&mut cx), state());
    assert_eq!(list.poll_next(&mut cx), Poll::Pending);
    list.clear(&mut cx);
    assert_eq!(cx.take_woken(), vec![handle(1), handle(1)]);
    assert_eq!(list.poll_next(&mut cx), state());
    assert_eq!(list.poll_next(&mut cx), Poll::Pending);
    list.clear(&mut cx);
    assert_eq!(list.poll_next(&mut cx), Poll::Pending);
}

#[test]
fn vec_remove_insert_pop() {
    let mut cx = StateContext::new(handle(1));
    let mut list: VecComponent<StateCell<u32>> = VecComponent::with_capacity(4);
    assert!(list.capacity() >= 4);
    list.push(StateCell::new(1), &mut cx);
    list.push(StateCell::new(3), &mut cx);
    list.insert(1, StateCell::new(2), &mut cx);
    assert!(list.capacity() >= list.len());
    assert_eq!(list.len(), 3);
    assert_eq!(list.get(1).map(|cell| *cell.get()), Some(2));
    list.remove(0, &mut cx);
    assert_eq!(list.get(0).map(|cell| *cell.get()), Some(2));
    assert_eq!(list.pop(&mut cx), Some(()));
    assert_eq!(list.len(), 1);
    assert_eq!(list.pop(&mut cx), Some(()));
    assert_eq!(list.poll_next(&mut cx), state());
    assert_eq!(list.poll_next(&mut cx), Poll::Pending);
    assert_eq!(list.pop(&mut cx), None);
    assert_eq!(cx.pending_wakes(), 0);
    assert_eq!(list.poll_next(&mut cx), Poll::Pending);
    assert!(list.get(0).is_none());
    assert!(list.get_mut(0).is_none());
}

#[test]
fn vec_append_and_drain() {
    let mut cx = StateContext::new(handle(1));
    let mut list: VecComponent<StateCell<u32>> = VecComponent::new();
    let mut other = vec![StateCell::new(1), StateCell::new(2), StateCell::new(3), StateCell::new(4)];
    list.append(&mut other, &mut cx);
    assert!(other.is_empty());
    assert_eq!(list.len(), 4);
    assert_eq!(list.poll_next(&mut cx), state());
    assert_eq!(list.poll_next(&mut cx), Poll::Pending);

    list.append(&mut other, &mut cx);
    assert_eq!(cx.pending_wakes(), 0);
    list.drain(2, 2, &mut cx);
    assert_eq!(cx.pending_wakes(), 0);
    assert_eq!(list.poll_next(&mut cx), Poll::Pending);

    list.drain(1, 3, &mut cx);
    assert_eq!(list.len(), 2);
    assert_eq!(list.get(0).map(|cell| *cell.get()), Some(1));
    assert_eq!(list.get(1).map(|cell| *cell.get()), Some(4));
    assert_eq!(cx.take_woken(), vec![handle(1), handle(1), handle(1)]);
    assert_eq!(list.poll_next(&mut cx), state());
}

#[test]
fn vec_element_change_is_reported_without_structural_mark() {
    let mut cx = StateContext::new(handle(1));
    let mut list: VecComponent<StateCell<u32>> = VecComponent::new();
    list.push(StateCell::new(1), &mut cx);
    list.push(StateCell::new(2), &mut cx);
    assert_eq!(list.poll_next(&mut cx), state());
    assert_eq!(list.poll_next(&mut cx), Poll::Pending);
    if let Some(cell) = list.get_mut(1) {
        *cell.get_mut(&mut cx) = 20;
    }
    assert_eq!(cx.take_woken(), vec![handle(1)]);
    assert_eq!(list.poll_next(&mut cx), state());
    assert_eq!(list.poll_next(&mut cx), Poll::Pending);
    assert_eq!(list.get(1).map(|cell| *cell.get()), Some(20));
}

#[test]
fn nested_containers() {
    let mut cx = StateContext::new(handle(1));
    let mut list: VecComponent<OptionComponent<StateCell<u32>>> = VecComponent::new();
    list.push(OptionComponent::new(None), &mut cx);
    list.push(OptionComponent::new(Some(StateCell::new(1))), &mut cx);
    assert_eq!(list.poll_next(&mut cx), state());
    assert_eq!(list.poll_next(&mut cx), Poll::Pending);
    if let Some(slot) = list.get_mut(0) {
        slot.set(Some(StateCell::new(2)), &mut cx);
    }
    assert_eq!(cx.take_woken(), vec![handle(1)]);
    assert_eq!(list.poll_next(&mut cx), state());
    assert_eq!(list.poll_next(&mut cx), Poll::Pending);
    list.release(&mut cx);
    assert_eq!(
        cx.take_woken(),
        vec![handle(1), handle(1), handle(1), handle(1), handle(1)]
    );
}

#[test]
fn map_insert_get_remove() {
    let mut cx = StateContext::new(handle(1));
    let mut map: HashMapComponent<StateCell<u32>> = HashMapComponent::new();
    assert!(map.is_empty());
    assert!(!map.insert(10, StateCell::new(1), &mut cx));
    assert!(!map.insert(20, StateCell::new(2), &mut cx));
    assert!(map.insert(10, StateCell::new(3), &mut cx));
    assert_eq!(map.len(), 2);
    assert!(map.contains_key(10));
    assert!(!map.contains_key(30));
    assert_eq!(map.get(10).map(|cell| *cell.get()), Some(3));
    assert_eq!(map.get(20).map(|cell| *cell.get()), Some(2));
    assert!(map.get(30).is_none());
    assert_eq!(map.poll_next(&mut cx), state());
    assert_eq!(map.poll_next(&mut cx), Poll::Pending);

    assert_eq!(map.remove(30, &mut cx), None);
    assert_eq!(cx.pending_wakes(), 0);
    assert_eq!(map.poll_next(&mut cx), Poll::Pending);

    assert_eq!(map.remove(10, &mut cx), Some(()));
    assert_eq!(cx.take_woken(), vec![handle(1), handle(1)]);
    assert_eq!(map.len(), 1);
    assert!(!map.contains_key(10));
    assert_eq!(map.poll_next(&mut cx), state());
    assert_eq!(map.poll_next(&mut cx), Poll::Pending);
}

#[test]
fn map_entry_access_marks_structure() {
    let mut cx = StateContext::new(handle(1));
    let mut map: HashMapComponent<OptionComponent<StateCell<u32>>> = HashMapComponent::new();
    map.insert(1, OptionComponent::new(None), &mut cx);
    assert_eq!(map.poll_next(&mut cx), state());
    assert_eq!(map.poll_next(&mut cx), Poll::Pending);
    assert!(map.get_mut(2, &mut cx).is_none());
    assert_eq!(cx.pending_wakes(), 0);
    assert_eq!(map.poll_next(&mut cx), Poll::Pending);
    assert!(map.get_mut(1, &mut cx).is_some());
    assert_eq!(cx.take_woken(), vec![handle(1)]);
    assert_eq!(map.poll_next(&mut cx), state());
    assert_eq!(map.poll_next(&mut cx), Poll::Pending);
}

#[test]
fn map_retain_and_clear() {
    let mut cx = StateContext::new(handle(1));
    let mut map: HashMapComponent<StateCell<u32>> = HashMapComponent::new();
    map.insert(1, quiet_cell(10, 21), &mut cx);
    map.insert(2, quiet_cell(20, 22), &mut cx);
    map.insert(3, quiet_cell(30, 23), &mut cx);
    assert_eq!(map.poll_next(&mut cx), state());
    assert_eq!(map.poll_next(&mut cx), Poll::Pending);
    map.retain(|_, _| true, &mut cx);
    assert_eq!(cx.pending_wakes(), 0);
    assert_eq!(map.poll_next(&mut cx), Poll::Pending);
    map.retain(|key, cell| key != 2 && *cell.get() < 100, &mut cx);
    assert_eq!(map.len(), 2);
    assert!(!map.contains_key(2));
    assert_eq!(cx.take_woken(), vec![handle(1), handle(1)]);
    assert_eq!(map.poll_next(&mut cx), state());
    assert_eq!(map.poll_next(&mut cx), Poll::Pending);
    map.clear(&mut cx);
    assert!(map.is_empty());
    assert_eq!(cx.take_woken(), vec![handle(1), handle(1), handle(1)]);
    map.clear(&mut cx);
    assert_eq!(cx.pending_wakes(), 0);
}

#[test]
fn map_release() {
    let mut cx = StateContext::new(handle(1));
    let mut map: HashMapComponent<StateCell<u32>> = HashMapComponent::new();
    map.insert(1, quiet_cell(10, 21), &mut cx);
    map.insert(2, quiet_cell(20, 22), &mut cx);
    cx.set_waker(handle(3));
    assert_eq!(map.poll_next(&mut cx), state());
    assert_eq!(map.poll_next(&mut cx), Poll::Pending);
    map.release(&mut cx);
    assert_eq!(cx.take_woken(), vec![handle(3), handle(3), handle(3)]);
}

#[test]
fn boxed_set_marks_structure() {
    let mut cx = StateContext::new(handle(1));
    let mut boxed = BoxedComponent::new(Box::new(StateCell::new(1u32)));
    assert_eq!(*boxed.get().get(), 1);
    assert_eq!(boxed.poll_next(&mut cx), state());
    assert_eq!(boxed.poll_next(&mut cx), Poll::Pending);
    boxed.set(Box::new(quiet_cell(2, 5)), &mut cx);
    assert_eq!(cx.take_woken(), vec![handle(1), handle(1)]);
    assert_eq!(*boxed.get().get(), 2);
    assert_eq!(boxed.poll_next(&mut cx), state());
    assert_eq!(boxed.poll_next(&mut cx), Poll::Pending);
    *boxed.get_mut().get_mut(&mut cx) = 3;
    assert_eq!(boxed.poll_next(&mut cx), state());
    boxed.release(&mut cx);
}

#[test]
fn box_is_a_component() {
    let mut cx = StateContext::new(handle(1));
    let mut boxed: Box<StateCell<u8>> = Box::new(StateCell::new(1));
    assert_eq!(boxed.poll_next(&mut cx), state());
    assert_eq!(boxed.poll_next(&mut cx), Poll::Pending);
    AsyncComponent::release(boxed, &mut cx);
    assert_eq!(cx.take_woken(), vec![handle(1)]);
}

#[test]
fn suspense_loading_polls_fallback() {
    let mut cx = StateContext::new(handle(1));
    let mut adapter: SuspenseComponent<StateCell<&str>, VecComponent<StateCell<u32>>> =
        SuspenseComponent::new(StateCell::new("loading"));
    assert!(adapter.is_loading());
    assert!(!adapter.is_ready());
    assert!(!adapter.is_resolved());
    assert_eq!(adapter.poll_next(&mut cx), state());
    assert_eq!(adapter.poll_next(&mut cx), Poll::Pending);
    match adapter.get_mut() {
        Err(fallback) => *fallback.get_mut(&mut cx) = "still loading",
        Ok(_) => panic!("the adapter is loading"),
    }
    assert_eq!(adapter.poll_next(&mut cx), state());
    assert_eq!(adapter.poll_next(&mut cx), Poll::Pending);
    assert!(adapter.is_loading());
    match adapter.get() {
        Err(fallback) => assert_eq!(*fallback.get(), "still loading"),
        Ok(_) => panic!("the adapter is loading"),
    }
}

#[test]
fn suspense_resolution_is_seen_by_the_same_poll() {
    let mut cx = StateContext::new(handle(1));
    let mut adapter: SuspenseComponent<StateCell<&str>, StateCell<u32>> =
        SuspenseComponent::new(StateCell::new("loading"));
    assert_eq!(adapter.poll_next(&mut cx), state());
    assert_eq!(adapter.poll_next(&mut cx), Poll::Pending);
    assert!(cx.take_woken().is_empty());

    assert!(adapter.resolve(StateCell::new(7), &mut cx).is_none());
    assert_eq!(cx.take_woken(), vec![handle(1)]);
    assert!(adapter.is_loading());
    assert!(adapter.is_resolved());

    assert_eq!(adapter.poll_next(&mut cx), state());
    assert!(adapter.is_ready());
    assert_eq!(cx.take_woken(), vec![handle(1)]);
    match adapter.get() {
        Ok(component) => assert_eq!(*component.get(), 7),
        Err(_) => panic!("the adapter is ready"),
    }
    assert_eq!(adapter.poll_next(&mut cx), Poll::Pending);
}

#[test]
fn suspense_ready_is_final() {
    let mut cx = StateContext::new(handle(1));
    let mut adapter: SuspenseComponent<StateCell<&str>, StateCell<u32>> =
        SuspenseComponent::new(StateCell::new("loading"));
    assert!(adapter.resolve(StateCell::new(7), &mut cx).is_none());
    let second = adapter.resolve(StateCell::new(8), &mut cx);
    assert_eq!(second.map(|cell| *cell.get()), Some(8));
    assert_eq!(adapter.poll_next(&mut cx), state());
    assert!(adapter.is_ready());
    let late = adapter.resolve(StateCell::new(9), &mut cx);
    assert_eq!(late.map(|cell| *cell.get()), Some(9));
    assert!(adapter.is_ready());
    assert_eq!(adapter.poll_next(&mut cx), Poll::Pending);
    match adapter.get_mut() {
        Ok(component) => *component.get_mut(&mut cx) = 70,
        Err(_) => panic!("the adapter is ready"),
    }
    assert_eq!(adapter.poll_next(&mut cx), state());
    assert!(adapter.is_ready());
    adapter.release(&mut cx);
}

#[test]
fn suspense_release_while_loading() {
    let mut cx = StateContext::new(handle(1));
    let mut adapter: SuspenseComponent<StateCell<&str>, StateCell<u32>> =
        SuspenseComponent::new(StateCell::new("loading"));
    assert_eq!(adapter.poll_next(&mut cx), state());
    assert_eq!(adapter.poll_next(&mut cx), Poll::Pending);
    adapter.release(&mut cx);
    assert_eq!(cx.take_woken(), vec![handle(1), handle(1)]);
}
