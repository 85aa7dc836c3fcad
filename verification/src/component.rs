//! The contract that every node of a component tree meets.

use vstd::prelude::*;
use core::task::Poll;
use crate::context::{StateContext, WakeHandle};
use crate::flags::{poll_of, ComponentPollFlags};

verus! {

/// A node of a component tree.
///
/// A poll reports which kinds of change happened in the node and below it
/// since the previous poll, and registers the context's handle wherever
/// nothing changed. Releasing a node ends it: every handle that is still
/// registered in it is invoked, so that nobody waits for a node that is gone.
pub trait AsyncComponent: Sized {
    /// The summary that the next poll reports; empty when it will be pending.
    spec fn poll_flags(&self) -> ComponentPollFlags;

    /// The handles that the next poll invokes, in order.
    spec fn poll_wakes(&self) -> Seq<WakeHandle>;

    /// Whether `post` is this node after a poll that registers `waker`.
    spec fn polled(&self, waker: WakeHandle, post: &Self) -> bool;

    /// The handles that releasing the node invokes, in order.
    spec fn release_wakes(&self) -> Seq<WakeHandle>;

    fn poll_next(&mut self, cx: &mut StateContext) -> (r: Poll<ComponentPollFlags>)
        ensures
            r == poll_of(old(self).poll_flags()),
            old(self).polled(old(cx).waker(), final(self)),
            final(cx).waker() == old(cx).waker(),
            final(cx).woken() == old(cx).woken() + old(self).poll_wakes(),
    ;

    fn release(self, cx: &mut StateContext)
        ensures
            final(cx).waker() == old(cx).waker(),
            final(cx).woken() == old(cx).woken() + self.release_wakes(),
    ;
}

impl<T: AsyncComponent> AsyncComponent for Box<T> {
    open spec fn poll_flags(&self) -> ComponentPollFlags {
        (**self).poll_flags()
    }

    open spec fn poll_wakes(&self) -> Seq<WakeHandle> {
        (**self).poll_wakes()
    }

    open spec fn polled(&self, waker: WakeHandle, post: &Self) -> bool {
        (**self).polled(waker, &**post)
    }

    open spec fn release_wakes(&self) -> Seq<WakeHandle> {
        (**self).release_wakes()
    }

    fn poll_next(&mut self, cx: &mut StateContext) -> (r: Poll<ComponentPollFlags>) {
        (**self).poll_next(cx)
    }

    fn release(self, cx: &mut StateContext) {
        (*self).release(cx)
    }
}

/// One poll of a borrowed component, as a value.
#[derive(Debug)]
pub struct Next<'a, T>(pub &'a mut T);

impl<'a, T: AsyncComponent> Next<'a, T> {
    /// Polls the borrowed component.
    pub fn poll(&mut self, cx: &mut StateContext) -> (r: Poll<ComponentPollFlags>)
        ensures
            r == poll_of(old(self).0.poll_flags()),
            old(self).0.polled(old(cx).waker(), final(self).0),
            final(cx).waker() == old(cx).waker(),
            final(cx).woken() == old(cx).woken() + old(self).0.poll_wakes(),
    {
        self.0.poll_next(cx)
    }
}

/// A component as an endless stream of summaries.
#[derive(Debug)]
pub struct AsyncComponentStream<T>(pub T);

impl<T: AsyncComponent> AsyncComponentStream<T> {
    /// Polls the component. The stream never ends: a summary is always
    /// wrapped in `Some`.
    pub fn poll_next(&mut self, cx: &mut StateContext) -> (r: Poll<Option<ComponentPollFlags>>)
        ensures
            r == (if old(self).0.poll_flags().spec_is_empty() {
                Poll::<Option<ComponentPollFlags>>::Pending
            } else {
                Poll::Ready(Some(old(self).0.poll_flags()))
            }),
            old(self).0.polled(old(cx).waker(), &final(self).0),
            final(cx).waker() == old(cx).waker(),
            final(cx).woken() == old(cx).woken() + old(self).0.poll_wakes(),
    {
        match self.0.poll_next(cx) {
            Poll::Ready(flags) => Poll::Ready(Some(flags)),
            Poll::Pending => Poll::Pending,
        }
    }
}

/// Adapters that every component has.
pub trait AsyncComponentExt: AsyncComponent {
    /// Borrows the component for one poll.
    fn next(&mut self) -> (r: Next<'_, Self>)
        ensures
            *r.0 == *old(self),
            *final(self) == *final(r.0),
    ;

    /// Turns the component into a stream of summaries.
    fn into_stream(self) -> (r: AsyncComponentStream<Self>)
        ensures
            r.0 == self,
    ;
}

impl<T: AsyncComponent> AsyncComponentExt for T {
    fn next(&mut self) -> (r: Next<'_, Self>) {
        Next(self)
    }

    fn into_stream(self) -> (r: AsyncComponentStream<Self>) {
        AsyncComponentStream(self)
    }
}

/// The union of the summaries that polling every component of `items` reports.
pub open spec fn all_flags<T: AsyncComponent>(items: Seq<T>) -> ComponentPollFlags
    decreases items.len(),
{
    if items.len() == 0 {
        ComponentPollFlags::spec_empty()
    } else {
        all_flags(items.drop_last()).spec_union(items.last().poll_flags())
    }
}

/// The handles that polling every component of `items`, first to last, invokes.
pub open spec fn all_poll_wakes<T: AsyncComponent>(items: Seq<T>) -> Seq<WakeHandle>
    decreases items.len(),
{
    if items.len() == 0 {
        Seq::empty()
    } else {
        all_poll_wakes(items.drop_last()) + items.last().poll_wakes()
    }
}

/// The handles that releasing every component of `items`, first to last, invokes.
pub open spec fn all_release_wakes<T: AsyncComponent>(items: Seq<T>) -> Seq<WakeHandle>
    decreases items.len(),
{
    if items.len() == 0 {
        Seq::empty()
    } else {
        all_release_wakes(items.drop_last()) + items.last().release_wakes()
    }
}

/// Whether `post` is `items` after every component was polled with `waker`.
pub open spec fn all_polled<T: AsyncComponent>(items: Seq<T>, waker: WakeHandle, post: Seq<T>) -> bool {
    &&& post.len() == items.len()
    &&& forall|i: int| 0 <= i < items.len() ==> (#[trigger] items[i]).polled(waker, &post[i])
}

/// The union over a sequence contains the summary of each of its components,
/// and is empty exactly when all of them are.
pub proof fn lemma_all_flags_covers<T: AsyncComponent>(items: Seq<T>)
    ensures
        forall|i: int| 0 <= i < items.len() ==> all_flags(items).spec_contains(
            (#[trigger] items[i]).poll_flags(),
        ),
        all_flags(items).spec_is_empty() <==> forall|i: int|
            0 <= i < items.len() ==> (#[trigger] items[i]).poll_flags().spec_is_empty(),
    decreases items.len(),
{
    if items.len() > 0 {
        let front = items.drop_last();
        lemma_all_flags_covers(front);
        assert forall|i: int| 0 <= i < items.len() implies all_flags(items).spec_contains(
            (#[trigger] items[i]).poll_flags(),
        ) by {
            if i < front.len() {
                assert(front[i] == items[i]);
            }
        }
        if all_flags(items).spec_is_empty() {
            assert forall|i: int| 0 <= i < items.len() implies (#[trigger] items[i]).poll_flags().spec_is_empty() by {
                if i < front.len() {
                    assert(front[i] == items[i]);
                }
            }
        }
        if forall|i: int| 0 <= i < items.len() ==> (#[trigger] items[i]).poll_flags().spec_is_empty() {
            assert forall|i: int| 0 <= i < front.len() implies (#[trigger] front[i]).poll_flags().spec_is_empty() by {
                assert(front[i] == items[i]);
            }
            assert(items.last() == items[items.len() - 1]);
        }
    }
}

/// Releases every component of `items`, first to last.
pub fn release_all<T: AsyncComponent>(items: Vec<T>, cx: &mut StateContext)
    ensures
        final(cx).waker() == old(cx).waker(),
        final(cx).woken() == old(cx).woken() + all_release_wakes(items@),
{
    let ghost all = items@;
    let mut rest = items;
    let mut stack: Vec<T> = Vec::new();
    while rest.len() > 0
        invariant
            rest@.len() + stack@.len() == all.len(),
            forall|i: int| 0 <= i < rest@.len() ==> rest@[i] == all[i],
            forall|i: int| 0 <= i < stack@.len() ==> stack@[i] == all[all.len() - 1 - i],
        decreases rest@.len(),
    {
        let item = rest.pop().unwrap();
        stack.push(item);
    }
    assert(all.take(0) =~= Seq::<T>::empty());
    assert(cx.woken() =~= cx.woken() + all_release_wakes(all.take(0)));
    while stack.len() > 0
        invariant
            stack@.len() <= all.len(),
            forall|i: int| 0 <= i < stack@.len() ==> stack@[i] == all[all.len() - 1 - i],
            cx.waker() == old(cx).waker(),
            cx.woken() == old(cx).woken() + all_release_wakes(all.take(all.len() - stack@.len())),
        decreases stack@.len(),
    {
        let ghost done = all.len() - stack@.len();
        let item = stack.pop().unwrap();
        assert(item == all[done]);
        assert(all.take(done + 1).drop_last() =~= all.take(done));
        assert(all.take(done + 1).last() == item);
        item.release(cx);
    }
    assert(all.take(all.len() as int) =~= all);
}

} // verus!
