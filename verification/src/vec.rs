//! The growable list: an ordered container of components.

use vstd::prelude::*;
use core::task::Poll;
use crate::cell::{structural_flags, StateCell, StateStatus};
use crate::component::{
    all_flags, all_poll_wakes, all_polled, all_release_wakes, release_all, AsyncComponent,
};
use crate::context::{wake_seq, StateContext, WakeHandle};
use crate::flags::{from_poll, into_poll, ComponentPollFlags};

verus! {

/// The components of `items` whose entry in `keep` equals `want`, in order.
pub open spec fn select<T>(items: Seq<T>, keep: Seq<bool>, want: bool) -> Seq<T>
    decreases items.len(),
{
    if items.len() == 0 || keep.len() != items.len() {
        Seq::empty()
    } else {
        let front = select(items.drop_last(), keep.drop_last(), want);
        if keep.last() == want {
            front.push(items.last())
        } else {
            front
        }
    }
}

/// Where every component is kept, all of them are selected and none is dropped.
pub proof fn lemma_select_all<T>(items: Seq<T>, keep: Seq<bool>)
    requires
        keep.len() == items.len(),
        forall|i: int| 0 <= i < keep.len() ==> keep[i],
    ensures
        select(items, keep, true) == items,
        select(items, keep, false) == Seq::<T>::empty(),
    decreases items.len(),
{
    if items.len() > 0 {
        lemma_select_all(items.drop_last(), keep.drop_last());
        assert(items.drop_last().push(items.last()) =~= items);
    } else {
        assert(items =~= Seq::<T>::empty());
    }
}

/// Reads `Vec::capacity`: the number of components the list can hold without
/// allocating again. The standard library promises only that it is never
/// less than the length.
#[verifier::external_body]
fn vec_capacity<T>(vec: &Vec<T>) -> (r: usize)
    ensures
        r >= vec@.len(),
{
    vec.capacity()
}

/// An ordered list of components.
///
/// The list has a structural marker of its own, marked changed by every
/// operation that changes which components the list holds or their order.
/// What happens inside a component shows in that component's own poll. A
/// poll reports the structural marker together with the polls of all
/// components, taken in index order.
#[derive(Debug)]
pub struct VecComponent<T> {
    updated: StateCell<()>,
    vec: Vec<T>,
}

impl<T: AsyncComponent> VecComponent<T> {
    /// The structural marker.
    pub closed spec fn structure(&self) -> StateStatus {
        self.updated.status()
    }

    /// The components, in index order.
    pub closed spec fn items(&self) -> Seq<T> {
        self.vec@
    }

    /// Whether `post` and `post_cx` are `pre` and `pre_cx` after a structural
    /// operation that leaves `items` in the list and releases `removed`.
    ///
    /// The removed components are released first to last. If the operation
    /// `changed` the structure, the structural marker is then marked changed,
    /// which invokes the handle registered with it; if not, the marker is
    /// left alone.
    pub open spec fn restructured(
        pre: &Self,
        post: &Self,
        items: Seq<T>,
        removed: Seq<T>,
        changed: bool,
        pre_cx: &StateContext,
        post_cx: &StateContext,
    ) -> bool {
        &&& post.items() == items
        &&& post.structure() == (if changed {
            StateStatus::Changed
        } else {
            pre.structure()
        })
        &&& post_cx.waker() == pre_cx.waker()
        &&& post_cx.woken() == pre_cx.woken() + all_release_wakes(removed) + (if changed {
            wake_seq(pre.structure().registered())
        } else {
            Seq::empty()
        })
    }

    /// An empty list; its structural marker starts as changed.
    pub fn new() -> (r: Self)
        ensures
            r.structure() == StateStatus::Changed,
            r.items() == Seq::<T>::empty(),
    {
        VecComponent { updated: StateCell::new(()), vec: Vec::new() }
    }

    /// An empty list with room for `capacity` components.
    pub fn with_capacity(capacity: usize) -> (r: Self)
        ensures
            r.structure() == StateStatus::Changed,
            r.items() == Seq::<T>::empty(),
    {
        VecComponent { updated: StateCell::new(()), vec: Vec::with_capacity(capacity) }
    }

    /// How many components the list can hold without allocating again.
    pub fn capacity(&self) -> (r: usize)
        ensures
            r >= self.items().len(),
    {
        vec_capacity(&self.vec)
    }

    pub fn len(&self) -> (r: usize)
        ensures
            r == self.items().len(),
    {
        self.vec.len()
    }

    pub fn is_empty(&self) -> (r: bool)
        ensures
            r == (self.items().len() == 0),
    {
        self.vec.len() == 0
    }

    /// Read access to the component at `index`, if there is one.
    pub fn get(&self, index: usize) -> (r: Option<&T>)
        ensures
            r.is_some() == (index < self.items().len()),
            r.is_some() ==> *r.unwrap() == self.items()[index as int],
    {
        if index < self.vec.len() {
            Some(&self.vec[index])
        } else {
            None
        }
    }

    /// Write access to the component at `index`, if there is one. The
    /// structural marker is left alone.
    pub fn get_mut(&mut self, index: usize) -> (r: Option<&mut T>)
        ensures
            final(self).structure() == old(self).structure(),
            r.is_some() == (index < old(self).items().len()),
            r.is_some() ==> *r.unwrap() == old(self).items()[index as int]
                && final(self).items() == old(self).items().update(
                index as int,
                *final(r.unwrap()),
            ),
            r.is_none() ==> final(self).items() == old(self).items(),
    {
        if index < self.vec.len() {
            Some(&mut self.vec[index])
        } else {
            None
        }
    }

    /// Releases `removed` and, if the structure `changed`, marks it so.
    fn settle(&mut self, removed: Vec<T>, changed: bool, cx: &mut StateContext)
        ensures
            Self::restructured(
                old(self),
                final(self),
                old(self).items(),
                removed@,
                changed,
                old(cx),
                final(cx),
            ),
    {
        release_all(removed, cx);
        if changed {
            StateCell::invalidate(&mut self.updated, cx);
        } else {
            assert(cx.woken() + Seq::<WakeHandle>::empty() =~= cx.woken());
        }
    }

    /// Appends `component`.
    pub fn push(&mut self, component: T, cx: &mut StateContext)
        ensures
            Self::restructured(
                old(self),
                final(self),
                old(self).items().push(component),
                Seq::empty(),
                true,
                old(cx),
                final(cx),
            ),
    {
        self.vec.push(component);
        self.settle(Vec::new(), true, cx);
    }

    /// Puts `component` at `index` and moves what follows one place up.
    pub fn insert(&mut self, index: usize, component: T, cx: &mut StateContext)
        requires
            index <= old(self).items().len(),
        ensures
            Self::restructured(
                old(self),
                final(self),
                old(self).items().insert(index as int, component),
                Seq::empty(),
                true,
                old(cx),
                final(cx),
            ),
    {
        self.vec.insert(index, component);
        self.settle(Vec::new(), true, cx);
    }

    /// Takes the component at `index` out and releases it.
    pub fn remove(&mut self, index: usize, cx: &mut StateContext)
        requires
            index < old(self).items().len(),
        ensures
            Self::restructured(
                old(self),
                final(self),
                old(self).items().remove(index as int),
                seq![old(self).items()[index as int]],
                true,
                old(cx),
                final(cx),
            ),
    {
        let item = self.vec.remove(index);
        let mut removed: Vec<T> = Vec::new();
        removed.push(item);
        assert(removed@ =~= seq![old(self).items()[index as int]]);
        self.settle(removed, true, cx);
    }

    /// Moves every component of `other` to the end of the list, in order.
    /// Nothing is marked when `other` is empty.
    pub fn append(&mut self, other: &mut Vec<T>, cx: &mut StateContext)
        ensures
            final(other)@ == Seq::<T>::empty(),
            Self::restructured(
                old(self),
                final(self),
                old(self).items() + old(other)@,
                Seq::empty(),
                old(other)@.len() > 0,
                old(cx),
                final(cx),
            ),
    {
        let changed = other.len() > 0;
        self.vec.append(other);
        self.settle(Vec::new(), changed, cx);
    }

    /// Takes the last component out and releases it.
    ///
    /// Returns `None`, and changes nothing, when the list is empty.
    pub fn pop(&mut self, cx: &mut StateContext) -> (r: Option<()>)
        ensures
            r.is_some() == (old(self).items().len() > 0),
            old(self).items().len() > 0 ==> Self::restructured(
                old(self),
                final(self),
                old(self).items().drop_last(),
                seq![old(self).items().last()],
                true,
                old(cx),
                final(cx),
            ),
            old(self).items().len() == 0 ==> Self::restructured(
                old(self),
                final(self),
                old(self).items(),
                Seq::empty(),
                false,
                old(cx),
                final(cx),
            ),
    {
        match self.vec.pop() {
            Some(item) => {
                let mut removed: Vec<T> = Vec::new();
                removed.push(item);
                assert(removed@ =~= seq![old(self).items().last()]);
                self.settle(removed, true, cx);
                Some(())
            },
            None => {
                self.settle(Vec::new(), false, cx);
                None
            },
        }
    }

    /// Takes the components at `start..end` out and releases them, first to
    /// last. Nothing is marked when the range is empty.
    pub fn drain(&mut self, start: usize, end: usize, cx: &mut StateContext)
        requires
            start <= end <= old(self).items().len(),
        ensures
            Self::restructured(
                old(self),
                final(self),
                old(self).items().subrange(0, start as int) + old(self).items().subrange(
                    end as int,
                    old(self).items().len() as int,
                ),
                old(self).items().subrange(start as int, end as int),
                start < end,
                old(cx),
                final(cx),
            ),
    {
        let mut tail = self.vec.split_off(end);
        let removed = self.vec.split_off(start);
        self.vec.append(&mut tail);
        assert(removed@ =~= old(self).items().subrange(start as int, end as int));
        assert(self.vec@ =~= old(self).items().subrange(0, start as int) + old(self).items().subrange(
            end as int,
            old(self).items().len() as int,
        ));
        self.settle(removed, start < end, cx);
    }

    /// Keeps the components for which `f` returns `true`, in order, and
    /// releases the others, first to last. Nothing is marked when every
    /// component is kept.
    pub fn retain<F: Fn(&T) -> bool>(&mut self, f: F, cx: &mut StateContext)
        requires
            forall|i: int|
                0 <= i < old(self).items().len() ==> call_requires(
                    f,
                    (&#[trigger] old(self).items()[i],),
                ),
        ensures
            exists|keep: Seq<bool>|
                {
                    &&& keep.len() == old(self).items().len()
                    &&& forall|i: int|
                        0 <= i < keep.len() ==> call_ensures(
                            f,
                            (&old(self).items()[i],),
                            #[trigger] keep[i],
                        )
                    &&& Self::restructured(
                        old(self),
                        final(self),
                        select(old(self).items(), keep, true),
                        select(old(self).items(), keep, false),
                        select(old(self).items(), keep, false).len() > 0,
                        old(cx),
                        final(cx),
                    )
                },
    {
        let ghost all = self.vec@;
        let mut stack: Vec<T> = Vec::new();
        assert(all == old(self).items());
        assert forall|i: int| 0 <= i < all.len() implies call_requires(
            f,
            (&#[trigger] all[i],),
        ) by {
            assert(call_requires(f, (&old(self).items()[i],)));
        }
        while self.vec.len() > 0
            invariant
                self.updated == old(self).updated,
                all == old(self).items(),
                forall|i: int| 0 <= i < all.len() ==> call_requires(f, (&#[trigger] all[i],)),
                self.vec@.len() + stack@.len() == all.len(),
                forall|i: int| 0 <= i < self.vec@.len() ==> self.vec@[i] == all[i],
                forall|i: int| 0 <= i < stack@.len() ==> stack@[i] == all[all.len() - 1 - i],
            decreases self.vec@.len(),
        {
            let item = self.vec.pop().unwrap();
            stack.push(item);
        }
        let mut removed: Vec<T> = Vec::new();
        let ghost mut keep: Seq<bool> = Seq::empty();
        assert(all.take(0) =~= Seq::<T>::empty());
        while stack.len() > 0
            invariant
                self.updated == old(self).updated,
                all == old(self).items(),
                stack@.len() <= all.len(),
                keep.len() == all.len() - stack@.len(),
                forall|i: int| 0 <= i < stack@.len() ==> stack@[i] == all[all.len() - 1 - i],
                forall|i: int| 0 <= i < all.len() ==> call_requires(f, (&#[trigger] all[i],)),
                forall|i: int|
                    0 <= i < keep.len() ==> call_ensures(f, (&all[i],), #[trigger] keep[i]),
                self.vec@ == select(all.take(keep.len() as int), keep, true),
                removed@ == select(all.take(keep.len() as int), keep, false),
            decreases stack@.len(),
        {
            let ghost done = keep.len() as int;
            let item = stack.pop().unwrap();
            assert(item == all[done]);
            let kept = f(&item);
            proof {
                assert(all.take(done + 1).drop_last() =~= all.take(done));
                assert(keep.push(kept).drop_last() =~= keep);
                keep = keep.push(kept);
            }
            if kept {
                self.vec.push(item);
            } else {
                removed.push(item);
            }
        }
        assert(all.take(all.len() as int) =~= all);
        let changed = removed.len() > 0;
        self.settle(removed, changed, cx);
    }

    /// Takes every component out and releases them, first to last. Nothing is
    /// marked when the list is empty already.
    pub fn clear(&mut self, cx: &mut StateContext)
        ensures
            Self::restructured(
                old(self),
                final(self),
                Seq::empty(),
                old(self).items(),
                old(self).items().len() > 0,
                old(cx),
                final(cx),
            ),
    {
        let mut removed: Vec<T> = Vec::new();
        core::mem::swap(&mut self.vec, &mut removed);
        let changed = removed.len() > 0;
        self.settle(removed, changed, cx);
    }
}

impl<T: AsyncComponent> Default for VecComponent<T> {
    fn default() -> (r: Self)
        ensures
            r.structure() == StateStatus::Changed,
            r.items() == Seq::<T>::empty(),
    {
        VecComponent::new()
    }
}

impl<T: AsyncComponent> AsyncComponent for VecComponent<T> {
    open spec fn poll_flags(&self) -> ComponentPollFlags {
        structural_flags(self.structure()).spec_union(all_flags(self.items()))
    }

    open spec fn poll_wakes(&self) -> Seq<WakeHandle> {
        all_poll_wakes(self.items())
    }

    open spec fn polled(&self, waker: WakeHandle, post: &Self) -> bool {
        &&& post.structure() == self.structure().polled(waker)
        &&& all_polled(self.items(), waker, post.items())
    }

    open spec fn release_wakes(&self) -> Seq<WakeHandle> {
        wake_seq(self.structure().registered()) + all_release_wakes(self.items())
    }

    fn poll_next(&mut self, cx: &mut StateContext) -> (r: Poll<ComponentPollFlags>) {
        let ghost all = self.vec@;
        let mut result = ComponentPollFlags::empty();
        if StateCell::refresh(&mut self.updated, cx) {
            result.insert(ComponentPollFlags::state());
        }
        assert(all.take(0) =~= Seq::<T>::empty());
        assert(cx.woken() =~= old(cx).woken() + all_poll_wakes(all.take(0)));
        let mut index: usize = 0;
        while index < self.vec.len()
            invariant
                index <= all.len(),
                all == old(self).items(),
                self.vec@.len() == all.len(),
                self.updated.status() == old(self).structure().polled(old(cx).waker()),
                forall|i: int| 0 <= i < index ==> (#[trigger] all[i]).polled(old(cx).waker(), &self.vec@[i]),
                forall|i: int| index <= i < all.len() ==> self.vec@[i] == all[i],
                result == structural_flags(old(self).structure()).spec_union(
                    all_flags(all.take(index as int)),
                ),
                cx.waker() == old(cx).waker(),
                cx.woken() == old(cx).woken() + all_poll_wakes(all.take(index as int)),
            decreases all.len() - index,
        {
            proof {
                assert(all.take(index + 1).drop_last() =~= all.take(index as int));
                assert(all.take(index + 1).last() == all[index as int]);
            }
            let polled = self.vec[index].poll_next(cx);
            result.insert(from_poll(polled));
            index += 1;
        }
        assert(all.take(all.len() as int) =~= all);
        into_poll(result)
    }

    fn release(self, cx: &mut StateContext) {
        let VecComponent { updated, vec } = self;
        updated.release(cx);
        release_all(vec, cx);
        assert(cx.woken() =~= old(cx).woken() + self.release_wakes());
    }
}

/// A push is reported by the next poll even when no component has anything
/// to report.
pub proof fn lemma_push_is_reported<T: AsyncComponent>(
    pre: VecComponent<T>,
    post: VecComponent<T>,
    component: T,
    pre_cx: StateContext,
    post_cx: StateContext,
)
    requires
        VecComponent::restructured(
            &pre,
            &post,
            pre.items().push(component),
            Seq::empty(),
            true,
            &pre_cx,
            &post_cx,
        ),
    ensures
        post.poll_flags().state,
        !post.poll_flags().spec_is_empty(),
{
}

/// A retain that keeps every component changes nothing: the components, the
/// structural marker and the record of invocations stay as they were.
pub proof fn lemma_retain_all_is_silent<T: AsyncComponent>(
    pre: VecComponent<T>,
    post: VecComponent<T>,
    keep: Seq<bool>,
    pre_cx: StateContext,
    post_cx: StateContext,
)
    requires
        keep.len() == pre.items().len(),
        forall|i: int| 0 <= i < keep.len() ==> keep[i],
        VecComponent::restructured(
            &pre,
            &post,
            select(pre.items(), keep, true),
            select(pre.items(), keep, false),
            select(pre.items(), keep, false).len() > 0,
            &pre_cx,
            &post_cx,
        ),
    ensures
        post.items() == pre.items(),
        post.structure() == pre.structure(),
        post_cx.woken() == pre_cx.woken(),
        post.poll_flags() == pre.poll_flags(),
{
    lemma_select_all(pre.items(), keep);
    assert(pre_cx.woken() + Seq::<WakeHandle>::empty() + Seq::<WakeHandle>::empty()
        =~= pre_cx.woken());
}

} // verus!
