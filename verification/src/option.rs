//! The optional slot: a container of at most one component.

use vstd::prelude::*;
use core::task::Poll;
use crate::cell::{structural_flags, StateCell, StateStatus};
use crate::component::AsyncComponent;
use crate::context::{wake_seq, StateContext, WakeHandle};
use crate::flags::{from_poll, into_poll, ComponentPollFlags};

verus! {

/// The summary that polling an optional component reports.
pub open spec fn slot_flags<T: AsyncComponent>(slot: Option<T>) -> ComponentPollFlags {
    match slot {
        Some(component) => component.poll_flags(),
        None => ComponentPollFlags::spec_empty(),
    }
}

/// The handles that polling an optional component invokes.
pub open spec fn slot_poll_wakes<T: AsyncComponent>(slot: Option<T>) -> Seq<WakeHandle> {
    match slot {
        Some(component) => component.poll_wakes(),
        None => Seq::empty(),
    }
}

/// The handles that releasing an optional component invokes.
pub open spec fn slot_release_wakes<T: AsyncComponent>(slot: Option<T>) -> Seq<WakeHandle> {
    match slot {
        Some(component) => component.release_wakes(),
        None => Seq::empty(),
    }
}

/// Whether `post` is `slot` after a poll that registers `waker`.
pub open spec fn slot_polled<T: AsyncComponent>(
    slot: Option<T>,
    waker: WakeHandle,
    post: Option<T>,
) -> bool {
    match slot {
        Some(component) => post is Some && component.polled(waker, &post->0),
        None => post is None,
    }
}

/// A slot that is empty or holds one component.
///
/// The slot has a structural marker of its own, which [`OptionComponent::set`]
/// and a [`OptionComponent::take`] that removes something mark changed. A
/// poll reports the structural marker together with the component's own poll.
#[derive(Debug)]
pub struct OptionComponent<T> {
    updated: StateCell<()>,
    component: Option<T>,
}

impl<T: AsyncComponent> OptionComponent<T> {
    /// The structural marker.
    pub closed spec fn structure(&self) -> StateStatus {
        self.updated.status()
    }

    /// What the slot holds.
    pub closed spec fn component(&self) -> Option<T> {
        self.component
    }

    /// A slot that holds `component`; its structural marker starts as changed.
    pub fn new(component: Option<T>) -> (r: Self)
        ensures
            r.structure() == StateStatus::Changed,
            r.component() == component,
    {
        OptionComponent { updated: StateCell::new(()), component }
    }

    pub fn is_none(&self) -> (r: bool)
        ensures
            r == self.component().is_none(),
    {
        self.component.is_none()
    }

    pub fn is_some(&self) -> (r: bool)
        ensures
            r == self.component().is_some(),
    {
        self.component.is_some()
    }

    /// Read access to the component, if there is one.
    pub fn get(&self) -> (r: Option<&T>)
        ensures
            r.is_some() == self.component().is_some(),
            r.is_some() ==> *r.unwrap() == self.component().unwrap(),
    {
        self.component.as_ref()
    }

    /// Write access to the component, if there is one. The structural marker
    /// is left alone: what is done to the component shows in its own poll.
    pub fn get_mut(&mut self) -> (r: Option<&mut T>)
        ensures
            final(self).structure() == old(self).structure(),
            r.is_some() == old(self).component().is_some(),
            r.is_some() ==> *r.unwrap() == old(self).component().unwrap()
                && final(self).component() == Some(*final(r.unwrap())),
            r.is_none() ==> final(self).component().is_none(),
    {
        match &mut self.component {
            Some(component) => Some(component),
            None => None,
        }
    }

    /// Empties the slot. The component that was in it is released.
    ///
    /// Returns `None`, and changes nothing, when the slot was empty already.
    pub fn take(&mut self, cx: &mut StateContext) -> (r: Option<()>)
        ensures
            r.is_some() == old(self).component().is_some(),
            final(self).component().is_none(),
            final(self).structure() == (if old(self).component().is_some() {
                StateStatus::Changed
            } else {
                old(self).structure()
            }),
            final(cx).waker() == old(cx).waker(),
            final(cx).woken() == old(cx).woken() + (if old(self).component().is_some() {
                slot_release_wakes(old(self).component()) + wake_seq(
                    old(self).structure().registered(),
                )
            } else {
                Seq::empty()
            }),
    {
        let mut removed: Option<T> = None;
        core::mem::swap(&mut self.component, &mut removed);
        match removed {
            Some(component) => {
                component.release(cx);
                StateCell::invalidate(&mut self.updated, cx);
                Some(())
            },
            None => {
                assert(old(cx).woken() + Seq::<WakeHandle>::empty() =~= old(cx).woken());
                None
            },
        }
    }

    /// Replaces what the slot holds and marks the structure changed, whatever
    /// was there and whatever comes. The component that was in the slot is
    /// released.
    pub fn set(&mut self, component: Option<T>, cx: &mut StateContext)
        ensures
            final(self).component() == component,
            final(self).structure() == StateStatus::Changed,
            final(cx).waker() == old(cx).waker(),
            final(cx).woken() == old(cx).woken() + slot_release_wakes(old(self).component())
                + wake_seq(old(self).structure().registered()),
    {
        let mut replaced = component;
        core::mem::swap(&mut self.component, &mut replaced);
        match replaced {
            Some(previous) => {
                previous.release(cx);
            },
            None => {
                assert(old(cx).woken() + Seq::<WakeHandle>::empty() =~= old(cx).woken());
            },
        }
        StateCell::invalidate(&mut self.updated, cx);
    }
}

impl<T: AsyncComponent> Default for OptionComponent<T> {
    fn default() -> (r: Self)
        ensures
            r.structure() == StateStatus::Changed,
            r.component().is_none(),
    {
        OptionComponent::new(None)
    }
}

impl<T: AsyncComponent> AsyncComponent for OptionComponent<T> {
    open spec fn poll_flags(&self) -> ComponentPollFlags {
        structural_flags(self.structure()).spec_union(slot_flags(self.component()))
    }

    open spec fn poll_wakes(&self) -> Seq<WakeHandle> {
        slot_poll_wakes(self.component())
    }

    open spec fn polled(&self, waker: WakeHandle, post: &Self) -> bool {
        &&& post.structure() == self.structure().polled(waker)
        &&& slot_polled(self.component(), waker, post.component())
    }

    open spec fn release_wakes(&self) -> Seq<WakeHandle> {
        wake_seq(self.structure().registered()) + slot_release_wakes(self.component())
    }

    fn poll_next(&mut self, cx: &mut StateContext) -> (r: Poll<ComponentPollFlags>) {
        let mut result = ComponentPollFlags::empty();
        if StateCell::refresh(&mut self.updated, cx) {
            result.insert(ComponentPollFlags::state());
        }
        match &mut self.component {
            Some(component) => {
                let polled = component.poll_next(cx);
                result.insert(from_poll(polled));
            },
            None => {
                assert(old(cx).woken() + Seq::<WakeHandle>::empty() =~= old(cx).woken());
            },
        }
        into_poll(result)
    }

    fn release(self, cx: &mut StateContext) {
        let OptionComponent { updated, component } = self;
        updated.release(cx);
        match component {
            Some(inner) => {
                inner.release(cx);
            },
            None => {},
        }
        assert(cx.woken() =~= old(cx).woken() + self.release_wakes());
    }
}

} // verus!
