use async_component::flags::{from_poll, into_poll};
use async_component::ComponentPollFlags;
use std::task::Poll;

#[test]
fn empty_summary() {
    let empty = ComponentPollFlags::empty();
    assert!(empty.is_empty());
    assert!(!empty.is_all());
    assert_eq!(empty.bits(), 0);
    assert!(empty.contains(ComponentPollFlags::empty()));
    assert!(!empty.contains(ComponentPollFlags::state()));
}

#[test]
fn bits_of_categories() {
    assert_eq!(ComponentPollFlags::state().bits(), 1);
    assert_eq!(ComponentPollFlags::stream().bits(), 2);
    assert_eq!(ComponentPollFlags::all().bits(), 3);
    assert_eq!(async_component::flags::STATE_BIT, 1);
    assert_eq!(async_component::flags::STREAM_BIT, 2);
}

#[test]
fn union_and_insert() {
    let mut flags = ComponentPollFlags::state();
    assert_eq!(flags.union(ComponentPollFlags::stream()), ComponentPollFlags::all());
    flags.insert(ComponentPollFlags::stream());
    assert!(flags.is_all());
    flags.insert(ComponentPollFlags::state());
    assert_eq!(flags.bits(), 3);
    flags.remove(ComponentPollFlags::state());
    assert_eq!(flags, ComponentPollFlags::stream());
    flags.remove(ComponentPollFlags::state());
    assert_eq!(flags, ComponentPollFlags::stream());
}

#[test]
fn intersection_difference_contains() {
    let all = ComponentPollFlags::all();
    let state = ComponentPollFlags::state();
    let stream = ComponentPollFlags::stream();
    assert_eq!(all.intersection(state), state);
    assert_eq!(state.intersection(stream), ComponentPollFlags::empty());
    assert_eq!(all.difference(state), stream);
    assert!(all.contains(state));
    assert!(!state.contains(all));
    assert!(all.intersects(stream));
    assert!(!state.intersects(stream));
    assert!(!state.intersects(ComponentPollFlags::empty()));
}

#[test]
fn from_bits_accepts_known_bits_only() {
    assert_eq!(ComponentPollFlags::from_bits(0), Some(ComponentPollFlags::empty()));
    assert_eq!(ComponentPollFlags::from_bits(1), Some(ComponentPollFlags::state()));
    assert_eq!(ComponentPollFlags::from_bits(2), Some(ComponentPollFlags::stream()));
    assert_eq!(ComponentPollFlags::from_bits(3), Some(ComponentPollFlags::all()));
    assert_eq!(ComponentPollFlags::from_bits(4), None);
    assert_eq!(ComponentPollFlags::from_bits(u32::MAX), None);
}

#[test]
fn from_bits_truncate_drops_unknown_bits() {
    assert_eq!(ComponentPollFlags::from_bits_truncate(0), ComponentPollFlags::empty());
    assert_eq!(ComponentPollFlags::from_bits_truncate(5), ComponentPollFlags::state());
    assert_eq!(ComponentPollFlags::from_bits_truncate(6), ComponentPollFlags::stream());
    assert_eq!(ComponentPollFlags::from_bits_truncate(u32::MAX), ComponentPollFlags::all());
    assert_eq!(ComponentPollFlags::from_bits_truncate(8), ComponentPollFlags::empty());
}

#[test]
fn summary_and_poll_result() {
    assert_eq!(into_poll(ComponentPollFlags::empty()), Poll::Pending);
    assert_eq!(into_poll(ComponentPollFlags::state()), Poll::Ready(ComponentPollFlags::state()));
    assert_eq!(from_poll(Poll::Pending), ComponentPollFlags::empty());
    assert_eq!(from_poll(Poll::Ready(ComponentPollFlags::all())), ComponentPollFlags::all());
}
