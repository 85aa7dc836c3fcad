//! A root component together with the flag and the waker slot through which
//! other threads ask for its next poll.

use vstd::prelude::*;
use atomic_waker::AtomicWaker;
use core::sync::atomic::{AtomicBool, Ordering};
use core::task::{Poll, Waker};
use std::sync::Arc;
use crate::component::AsyncComponent;
use crate::context::{StateContext, WakeHandle};
use crate::flags::ComponentPollFlags;

verus! {

/// `core::task::Waker`, carried through as an opaque value.
#[verifier::external_type_specification]
#[verifier::external_body]
pub struct ExWaker(core::task::Waker);

/// `atomic_waker::AtomicWaker`, carried through as an opaque value.
#[verifier::external_type_specification]
#[verifier::external_body]
pub struct ExAtomicWaker(atomic_waker::AtomicWaker);

/// `AtomicWaker::new` makes a slot that holds no waker. Nothing is claimed of
/// the result.
pub assume_specification[ AtomicWaker::new ]() -> AtomicWaker;

/// `AtomicWaker::register` stores a clone of `waker` in the slot, or invokes
/// `waker` when a wake is under way. Nothing is claimed of the slot: other
/// threads may change it at any time.
pub assume_specification[ AtomicWaker::register ](slot: &AtomicWaker, waker: &Waker);

/// `AtomicWaker::wake` takes the waker out of the slot, if there is one, and
/// invokes it. Nothing is claimed of the slot.
pub assume_specification[ AtomicWaker::wake ](slot: &AtomicWaker);

/// `Arc::clone` makes another pointer to the allocation that `signal` points
/// to, so the result and `signal` stand for the same shared signal.
#[verifier::external_body]
fn share(signal: &Arc<SharedSignal>) -> (r: Arc<SharedSignal>)
    ensures
        r == *signal,
{
    Arc::clone(signal)
}

/// The part of a [`ComponentStream`] that is shared with other threads.
///
/// A wake sets the flag and invokes the waker of the task that polls the
/// stream. What the flag and the slot hold can change at any time, so no
/// contract speaks of it.
#[derive(Debug)]
pub struct SharedSignal {
    updated: AtomicBool,
    waker: AtomicWaker,
}

impl SharedSignal {
    /// A signal with its flag set, so that the first poll takes place, and no
    /// waker registered.
    pub fn new() -> Self {
        SharedSignal { updated: AtomicBool::new(true), waker: AtomicWaker::new() }
    }

    /// Asks for a poll: sets the flag, then invokes the registered waker.
    pub fn wake_by_ref(&self) {
        self.updated.store(true, Ordering::Relaxed);
        self.waker.wake();
    }

    /// Registers the waker of the task that is polling.
    pub fn register(&self, waker: &Waker) {
        self.waker.register(waker);
    }

    /// Asks for a poll without waking anybody: sets the flag.
    pub fn request_poll(&self) {
        self.updated.store(true, Ordering::Relaxed);
    }

    /// Clears the flag and returns whether it was set.
    pub fn take_updated(&self) -> bool {
        self.updated.swap(false, Ordering::Relaxed)
    }
}

/// What a poll of the stream returns: the component's summary when a poll
/// was asked for and the component reports something, pending otherwise.
pub open spec fn stream_poll_of(updated: bool, flags: ComponentPollFlags) -> Poll<
    Option<ComponentPollFlags>,
> {
    if updated && !flags.spec_is_empty() {
        Poll::Ready(Some(flags))
    } else {
        Poll::Pending
    }
}

/// A root component that is polled only when a poll was asked for.
#[derive(Debug)]
pub struct ComponentStream<C> {
    inner: Arc<SharedSignal>,
    cx: StateContext,
    component: C,
}

impl<C: AsyncComponent> ComponentStream<C> {
    /// The root component.
    pub closed spec fn component(&self) -> C {
        self.component
    }

    /// The context that the root is polled and mutated with.
    pub closed spec fn context(&self) -> StateContext {
        self.cx
    }

    /// The signal through which the stream is asked for its next poll.
    pub closed spec fn signal(&self) -> Arc<SharedSignal> {
        self.inner
    }

    /// A stream around `component`, which registers `handle` with the tree.
    pub fn new(component: C, handle: WakeHandle) -> (r: Self)
        ensures
            r.component() == component,
            r.context().waker() == handle,
            r.context().woken() == Seq::<WakeHandle>::empty(),
    {
        ComponentStream {
            inner: Arc::new(SharedSignal::new()),
            cx: StateContext::new(handle),
            component,
        }
    }

    /// A handle on the stream's own signal, to wake the stream from elsewhere.
    pub fn shared(&self) -> (r: Arc<SharedSignal>)
        ensures
            r == self.signal(),
    {
        share(&self.inner)
    }

    /// Read access to the root.
    pub fn get(&self) -> (r: &C)
        ensures
            *r == self.component(),
    {
        &self.component
    }

    /// Write access to the root, together with the context that records the
    /// handles that the mutations invoke. [`ComponentStream::flush`] performs
    /// what was recorded.
    pub fn enter(&mut self) -> (r: (&mut C, &mut StateContext))
        ensures
            *r.0 == old(self).component(),
            *r.1 == old(self).context(),
            final(self).component() == *final(r.0),
            final(self).context() == *final(r.1),
    {
        (&mut self.component, &mut self.cx)
    }

    /// Performs the invocations that the context recorded: if there is one,
    /// the shared signal is woken. Returns whether it was.
    pub fn flush(&mut self) -> (woke: bool)
        ensures
            woke == (old(self).context().woken().len() > 0),
            final(self).component() == old(self).component(),
            final(self).context().waker() == old(self).context().waker(),
            final(self).context().woken() == Seq::<WakeHandle>::empty(),
    {
        let wakes = self.cx.take_woken();
        if wakes.len() > 0 {
            self.inner.wake_by_ref();
            true
        } else {
            false
        }
    }

    /// Polls the root if `updated` says that a poll was asked for, and
    /// performs the invocations that the poll recorded.
    ///
    /// After a poll that reported something, the next poll is asked for at
    /// once: only a poll that finds nothing to report has registered the
    /// handle everywhere, and only then may the stream wait to be woken.
    pub fn poll_updated(&mut self, updated: bool) -> (r: Poll<Option<ComponentPollFlags>>)
        ensures
            r == stream_poll_of(updated, old(self).component().poll_flags()),
            final(self).context().waker() == old(self).context().waker(),
            updated ==> old(self).component().polled(
                old(self).context().waker(),
                &final(self).component(),
            ) && final(self).context().woken() == Seq::<WakeHandle>::empty(),
            !updated ==> final(self).component() == old(self).component()
                && final(self).context().woken() == old(self).context().woken(),
    {
        if updated {
            let polled = self.component.poll_next(&mut self.cx);
            self.flush();
            match polled {
                Poll::Ready(flags) => {
                    self.inner.request_poll();
                    Poll::Ready(Some(flags))
                },
                Poll::Pending => Poll::Pending,
            }
        } else {
            Poll::Pending
        }
    }

    /// Polls the stream on behalf of the task that `waker` wakes.
    ///
    /// The waker is registered first, then the flag is cleared and read.
    /// Whether a poll was asked for depends on what other threads did, so
    /// the result is one of the two that [`ComponentStream::poll_updated`]
    /// can give for this stream.
    pub fn poll_next(&mut self, waker: &Waker) -> (r: Poll<Option<ComponentPollFlags>>)
        ensures
            r == stream_poll_of(true, old(self).component().poll_flags())
                || r == stream_poll_of(false, old(self).component().poll_flags()),
            r is Ready ==> old(self).component().polled(
                old(self).context().waker(),
                &final(self).component(),
            ),
            final(self).component() == old(self).component() || old(self).component().polled(
                old(self).context().waker(),
                &final(self).component(),
            ),
            final(self).context().waker() == old(self).context().waker(),
    {
        self.inner.register(waker);
        let updated = self.inner.take_updated();
        self.poll_updated(updated)
    }
}

} // verus!
