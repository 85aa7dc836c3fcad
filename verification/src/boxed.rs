//! The boxed indirection: a container of exactly one component, held behind
//! an owned reference.

use vstd::prelude::*;
use core::task::Poll;
use crate::cell::{structural_flags, StateCell, StateStatus};
use crate::component::AsyncComponent;
use crate::context::{wake_seq, StateContext, WakeHandle};
use crate::flags::{from_poll, into_poll, ComponentPollFlags};

verus! {

/// One component behind an owned reference.
///
/// The container has a structural marker of its own, which
/// [`BoxedComponent::set`] marks changed. A poll reports the structural
/// marker together with the component's own poll.
#[derive(Debug)]
pub struct BoxedComponent<T> {
    updated: StateCell<()>,
    inner: Box<T>,
}

impl<T: AsyncComponent> BoxedComponent<T> {
    /// The structural marker.
    pub closed spec fn structure(&self) -> StateStatus {
        self.updated.status()
    }

    /// The component held.
    pub closed spec fn component(&self) -> T {
        *self.inner
    }

    /// A container that holds `component`; its structural marker starts as changed.
    pub fn new(component: Box<T>) -> (r: Self)
        ensures
            r.structure() == StateStatus::Changed,
            r.component() == *component,
    {
        BoxedComponent { updated: StateCell::new(()), inner: component }
    }

    /// Read access to the component.
    pub fn get(&self) -> (r: &T)
        ensures
            *r == self.component(),
    {
        &*self.inner
    }

    /// Write access to the component. The structural marker is left alone.
    pub fn get_mut(&mut self) -> (r: &mut T)
        ensures
            *r == old(self).component(),
            final(self).component() == *final(r),
            final(self).structure() == old(self).structure(),
    {
        &mut *self.inner
    }

    /// Replaces the component and marks the structure changed. The component
    /// that was held is released.
    pub fn set(&mut self, component: Box<T>, cx: &mut StateContext)
        ensures
            final(self).component() == *component,
            final(self).structure() == StateStatus::Changed,
            final(cx).waker() == old(cx).waker(),
            final(cx).woken() == old(cx).woken() + old(self).component().release_wakes()
                + wake_seq(old(self).structure().registered()),
    {
        let mut replaced = component;
        core::mem::swap(&mut self.inner, &mut replaced);
        replaced.release(cx);
        StateCell::invalidate(&mut self.updated, cx);
    }
}

impl<T: AsyncComponent> AsyncComponent for BoxedComponent<T> {
    open spec fn poll_flags(&self) -> ComponentPollFlags {
        structural_flags(self.structure()).spec_union(self.component().poll_flags())
    }

    open spec fn poll_wakes(&self) -> Seq<WakeHandle> {
        self.component().poll_wakes()
    }

    open spec fn polled(&self, waker: WakeHandle, post: &Self) -> bool {
        &&& post.structure() == self.structure().polled(waker)
        &&& self.component().polled(waker, &post.component())
    }

    open spec fn release_wakes(&self) -> Seq<WakeHandle> {
        wake_seq(self.structure().registered()) + self.component().release_wakes()
    }

    fn poll_next(&mut self, cx: &mut StateContext) -> (r: Poll<ComponentPollFlags>) {
        let mut result = ComponentPollFlags::empty();
        if StateCell::refresh(&mut self.updated, cx) {
            result.insert(ComponentPollFlags::state());
        }
        let polled = self.inner.poll_next(cx);
        result.insert(from_poll(polled));
        into_poll(result)
    }

    fn release(self, cx: &mut StateContext) {
        let BoxedComponent { updated, inner } = self;
        updated.release(cx);
        inner.release(cx);
        assert(cx.woken() =~= old(cx).woken() + self.release_wakes());
    }
}

} // verus!
