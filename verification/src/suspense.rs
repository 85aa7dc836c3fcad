//! The loading/ready adapter: a fallback that gives way to a component once
//! that component has been produced.

use vstd::prelude::*;
use core::task::Poll;
use crate::component::AsyncComponent;
use crate::context::{wake_seq, StateContext, WakeHandle};
use crate::flags::ComponentPollFlags;

verus! {

/// The two states of a [`SuspenseComponent`].
#[derive(Debug)]
pub enum SuspenseVariant<Fallback, Component> {
    /// The component is still being produced.
    Loading {
        /// Stands in for the component.
        fallback: Fallback,
        /// The produced component, from its arrival to the next poll.
        pending: Option<Component>,
        /// The handle to invoke when the component arrives.
        waiting: Option<WakeHandle>,
    },
    /// The component has taken the fallback's place.
    Ready(Component),
}

/// A fallback component that is replaced, once and for good, by a component
/// that is produced elsewhere.
///
/// While loading, a poll is the fallback's poll. The produced component is
/// handed in with [`SuspenseComponent::resolve`]. The next poll then releases
/// the fallback, makes the component current and polls it at once.
#[derive(Debug)]
pub struct SuspenseComponent<Fallback, Component> {
    current: SuspenseVariant<Fallback, Component>,
}

impl<F: AsyncComponent, C: AsyncComponent> SuspenseComponent<F, C> {
    /// The state of the adapter.
    pub closed spec fn state(&self) -> SuspenseVariant<F, C> {
        self.current
    }

    /// Whether the produced component is current.
    pub open spec fn spec_is_ready(&self) -> bool {
        self.state() is Ready
    }

    /// A loading adapter that shows `fallback`.
    pub fn new(fallback: F) -> (r: Self)
        ensures
            r.state() == (SuspenseVariant::<F, C>::Loading {
                fallback,
                pending: None,
                waiting: None,
            }),
    {
        SuspenseComponent {
            current: SuspenseVariant::Loading { fallback, pending: None, waiting: None },
        }
    }

    #[verifier::when_used_as_spec(spec_is_ready)]
    pub fn is_ready(&self) -> (r: bool)
        ensures
            r == self.spec_is_ready(),
    {
        match &self.current {
            SuspenseVariant::Ready(_) => true,
            SuspenseVariant::Loading { .. } => false,
        }
    }

    pub fn is_loading(&self) -> (r: bool)
        ensures
            r == !self.spec_is_ready(),
    {
        match &self.current {
            SuspenseVariant::Ready(_) => false,
            SuspenseVariant::Loading { .. } => true,
        }
    }

    /// Whether a produced component waits for the next poll.
    pub fn is_resolved(&self) -> (r: bool)
        ensures
            r == (self.state() matches SuspenseVariant::Loading { pending, .. } && pending.is_some()),
    {
        match &self.current {
            SuspenseVariant::Ready(_) => false,
            SuspenseVariant::Loading { pending, .. } => pending.is_some(),
        }
    }

    /// Read access to the current component: `Ok` once ready, the fallback as
    /// `Err` while loading.
    pub fn get(&self) -> (r: Result<&C, &F>)
        ensures
            match self.state() {
                SuspenseVariant::Ready(component) => r == Ok::<&C, &F>(&component),
                SuspenseVariant::Loading { fallback, .. } => r == Err::<&C, &F>(&fallback),
            },
    {
        match &self.current {
            SuspenseVariant::Loading { fallback, .. } => Err(fallback),
            SuspenseVariant::Ready(component) => Ok(component),
        }
    }

    /// Write access to the current component: `Ok` once ready, the fallback
    /// as `Err` while loading.
    pub fn get_mut(&mut self) -> (r: Result<&mut C, &mut F>)
        ensures
            match old(self).state() {
                SuspenseVariant::Ready(component) => {
                    &&& r is Ok
                    &&& *r->Ok_0 == component
                    &&& final(self).state() == SuspenseVariant::<F, C>::Ready(*final(r->Ok_0))
                },
                SuspenseVariant::Loading { fallback, pending, waiting } => {
                    &&& r is Err
                    &&& *r->Err_0 == fallback
                    &&& final(self).state() == (SuspenseVariant::<F, C>::Loading {
                        fallback: *final(r->Err_0),
                        pending,
                        waiting,
                    })
                },
            },
    {
        match &mut self.current {
            SuspenseVariant::Loading { fallback, .. } => Err(fallback),
            SuspenseVariant::Ready(component) => Ok(component),
        }
    }

    /// Hands in the produced component.
    ///
    /// A loading adapter that has no component yet keeps it for the next poll
    /// and invokes the handle that waits for it; `None` is returned. An
    /// adapter that is ready, or that has a component already, changes
    /// nothing and gives `component` back.
    pub fn resolve(&mut self, component: C, cx: &mut StateContext) -> (r: Option<C>)
        ensures
            final(cx).waker() == old(cx).waker(),
            match old(self).state() {
                SuspenseVariant::Loading { fallback, pending: None, waiting } => {
                    &&& r.is_none()
                    &&& final(self).state() == (SuspenseVariant::<F, C>::Loading {
                        fallback,
                        pending: Some(component),
                        waiting: None,
                    })
                    &&& final(cx).woken() == old(cx).woken() + wake_seq(waiting)
                },
                _ => {
                    &&& r == Some(component)
                    &&& final(self).state() == old(self).state()
                    &&& final(cx).woken() == old(cx).woken()
                },
            },
    {
        match &mut self.current {
            SuspenseVariant::Loading { pending, waiting, .. } => {
                if pending.is_none() {
                    *pending = Some(component);
                    let mut waited: Option<WakeHandle> = None;
                    core::mem::swap(waiting, &mut waited);
                    cx.wake_if(waited);
                    None
                } else {
                    Some(component)
                }
            },
            SuspenseVariant::Ready(_) => Some(component),
        }
    }
}

impl<F: AsyncComponent, C: AsyncComponent> AsyncComponent for SuspenseComponent<F, C> {
    open spec fn poll_flags(&self) -> ComponentPollFlags {
        match self.state() {
            SuspenseVariant::Loading { pending: Some(component), .. } => component.poll_flags(),
            SuspenseVariant::Loading { fallback, .. } => fallback.poll_flags(),
            SuspenseVariant::Ready(component) => component.poll_flags(),
        }
    }

    open spec fn poll_wakes(&self) -> Seq<WakeHandle> {
        match self.state() {
            SuspenseVariant::Loading { fallback, pending: Some(component), .. } => {
                fallback.release_wakes() + component.poll_wakes()
            },
            SuspenseVariant::Loading { fallback, .. } => fallback.poll_wakes(),
            SuspenseVariant::Ready(component) => component.poll_wakes(),
        }
    }

    open spec fn polled(&self, waker: WakeHandle, post: &Self) -> bool {
        match self.state() {
            SuspenseVariant::Loading { pending: Some(component), .. } => {
                &&& post.state() is Ready
                &&& component.polled(waker, &post.state()->Ready_0)
            },
            SuspenseVariant::Loading { fallback, pending: None, .. } => {
                &&& post.state() matches SuspenseVariant::Loading {
                    fallback: after,
                    pending: None,
                    waiting: Some(registered),
                }
                &&& registered == waker
                &&& fallback.polled(waker, &after)
            },
            SuspenseVariant::Ready(component) => {
                &&& post.state() is Ready
                &&& component.polled(waker, &post.state()->Ready_0)
            },
        }
    }

    open spec fn release_wakes(&self) -> Seq<WakeHandle> {
        match self.state() {
            SuspenseVariant::Loading { fallback, pending, waiting } => {
                wake_seq(waiting) + fallback.release_wakes() + (match pending {
                    Some(component) => component.release_wakes(),
                    None => Seq::empty(),
                })
            },
            SuspenseVariant::Ready(component) => component.release_wakes(),
        }
    }

    fn poll_next(&mut self, cx: &mut StateContext) -> (r: Poll<ComponentPollFlags>) {
        let mut arrived: Option<C> = None;
        match &mut self.current {
            SuspenseVariant::Loading { pending, waiting, .. } => {
                core::mem::swap(pending, &mut arrived);
                if arrived.is_none() {
                    *waiting = Some(cx.task_context());
                }
            },
            SuspenseVariant::Ready(_) => {},
        }
        match arrived {
            Some(component) => {
                let mut previous = SuspenseVariant::Ready(component);
                core::mem::swap(&mut self.current, &mut previous);
                match previous {
                    SuspenseVariant::Loading { fallback, .. } => {
                        fallback.release(cx);
                    },
                    SuspenseVariant::Ready(_) => {
                        assert(false);
                    },
                }
            },
            None => {
                assert(cx.woken() + Seq::<WakeHandle>::empty() =~= cx.woken());
            },
        }
        match &mut self.current {
            SuspenseVariant::Loading { fallback, .. } => fallback.poll_next(cx),
            SuspenseVariant::Ready(component) => component.poll_next(cx),
        }
    }

    fn release(self, cx: &mut StateContext) {
        match self.current {
            SuspenseVariant::Loading { fallback, pending, waiting } => {
                cx.wake_if(waiting);
                fallback.release(cx);
                match pending {
                    Some(component) => {
                        component.release(cx);
                    },
                    None => {},
                }
            },
            SuspenseVariant::Ready(component) => {
                component.release(cx);
            },
        }
        assert(cx.woken() =~= old(cx).woken() + self.release_wakes());
    }
}

/// While loading, with no component handed in, a poll is the fallback's poll.
pub proof fn lemma_loading_polls_fallback<F: AsyncComponent, C: AsyncComponent>(
    adapter: SuspenseComponent<F, C>,
)
    requires
        adapter.state() matches SuspenseVariant::Loading { pending, .. } && pending.is_none(),
    ensures
        adapter.poll_flags() == adapter.state()->Loading_fallback.poll_flags(),
        adapter.poll_wakes() == adapter.state()->Loading_fallback.poll_wakes(),
{
}

/// The poll that finds the produced component is already that component's
/// poll, and it leaves the adapter ready.
pub proof fn lemma_resolved_polls_component<F: AsyncComponent, C: AsyncComponent>(
    adapter: SuspenseComponent<F, C>,
    component: C,
    waker: WakeHandle,
    post: SuspenseComponent<F, C>,
)
    requires
        adapter.state() matches SuspenseVariant::Loading { pending, .. } && pending == Some(
            component,
        ),
        adapter.polled(waker, &post),
    ensures
        adapter.poll_flags() == component.poll_flags(),
        post.spec_is_ready(),
        component.polled(waker, &post.state()->Ready_0),
{
}

/// A ready adapter stays ready: neither a poll nor a late component brings
/// it back to loading.
pub proof fn lemma_ready_is_final<F: AsyncComponent, C: AsyncComponent>(
    adapter: SuspenseComponent<F, C>,
    waker: WakeHandle,
    post: SuspenseComponent<F, C>,
)
    requires
        adapter.spec_is_ready(),
        adapter.polled(waker, &post),
    ensures
        post.spec_is_ready(),
        adapter.poll_flags() == adapter.state()->Ready_0.poll_flags(),
{
}

} // verus!
