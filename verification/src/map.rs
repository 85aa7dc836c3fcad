//! The keyed map: a container of components found by key.

use vstd::prelude::*;
use core::task::Poll;
use crate::cell::{structural_flags, StateCell, StateStatus};
use crate::component::{
    all_flags, all_poll_wakes, all_polled, all_release_wakes, release_all, AsyncComponent,
};
use crate::context::{wake_seq, StateContext, WakeHandle};
use crate::flags::{from_poll, into_poll, ComponentPollFlags};
use crate::vec::select;

verus! {

/// The components of `entries`, in the order of the entries.
pub open spec fn entry_values<V>(entries: Seq<(u64, V)>) -> Seq<V> {
    Seq::new(entries.len(), |i: int| entries[i].1)
}

/// Whether no key occurs twice in `entries`.
pub open spec fn unique_keys<V>(entries: Seq<(u64, V)>) -> bool {
    forall|i: int, j: int|
        0 <= i < j < entries.len() ==> (#[trigger] entries[i]).0 != (#[trigger] entries[j]).0
}

/// Whether `index` is where `key` is found in `entries`.
pub open spec fn found_at<V>(entries: Seq<(u64, V)>, key: u64, index: int) -> bool {
    &&& 0 <= index < entries.len()
    &&& entries[index].0 == key
    &&& forall|j: int| 0 <= j < index ==> (#[trigger] entries[j]).0 != key
}

/// Whether `key` is not in `entries`.
pub open spec fn absent<V>(entries: Seq<(u64, V)>, key: u64) -> bool {
    forall|j: int| 0 <= j < entries.len() ==> (#[trigger] entries[j]).0 != key
}

/// A selection from entries with distinct keys has distinct keys, and holds
/// nothing but entries of the original.
pub proof fn lemma_select_keeps_unique<V>(entries: Seq<(u64, V)>, keep: Seq<bool>, want: bool)
    requires
        unique_keys(entries),
        keep.len() == entries.len(),
    ensures
        unique_keys(select(entries, keep, want)),
        forall|k: int|
            0 <= k < select(entries, keep, want).len() ==> exists|i: int|
                0 <= i < entries.len() && entries[i] == #[trigger] select(entries, keep, want)[k],
    decreases entries.len(),
{
    if entries.len() > 0 {
        let front_entries = entries.drop_last();
        let front = select(front_entries, keep.drop_last(), want);
        lemma_select_keeps_unique(front_entries, keep.drop_last(), want);
        let chosen = select(entries, keep, want);
        assert forall|k: int| 0 <= k < front.len() implies exists|i: int|
            0 <= i < entries.len() - 1 && entries[i] == #[trigger] front[k] by {
            let i = choose|i: int| 0 <= i < front_entries.len() && front_entries[i] == front[k];
            assert(entries[i] == front[k]);
        }
        assert forall|k: int| 0 <= k < chosen.len() implies exists|i: int|
            0 <= i < entries.len() && entries[i] == #[trigger] chosen[k] by {
            if k < front.len() {
                let i = choose|i: int| 0 <= i < entries.len() - 1 && entries[i] == front[k];
                assert(entries[i] == chosen[k]);
            } else {
                assert(entries[entries.len() - 1] == chosen[k]);
            }
        }
        assert forall|a: int, b: int| 0 <= a < b < chosen.len() implies (#[trigger] chosen[a]).0
            != (#[trigger] chosen[b]).0 by {
            if b < front.len() {
                assert(front[a] == chosen[a] && front[b] == chosen[b]);
            } else {
                let i = choose|i: int| 0 <= i < entries.len() - 1 && entries[i] == front[a];
                assert(chosen[a] == entries[i]);
                assert(chosen[b] == entries[entries.len() - 1]);
            }
        }
    }
}

/// A map from `u64` keys to components.
///
/// The map has a structural marker of its own, marked changed by every
/// operation that changes which entries the map holds, and by every write
/// access to an entry. A poll reports the structural marker together with
/// the polls of all components. Callers should not rely on the order in
/// which a poll visits the components.
#[derive(Debug)]
pub struct HashMapComponent<V> {
    updated: StateCell<()>,
    entries: Vec<(u64, V)>,
}

impl<V: AsyncComponent> HashMapComponent<V> {
    /// The structural marker.
    pub closed spec fn structure(&self) -> StateStatus {
        self.updated.status()
    }

    /// The entries, in the order in which a poll visits them.
    pub closed spec fn entries(&self) -> Seq<(u64, V)> {
        self.entries@
    }

    /// Whether no key occurs twice. Every map that this module makes or
    /// changes is well formed.
    pub open spec fn wf(&self) -> bool {
        unique_keys(self.entries())
    }

    /// Whether `post` and `post_cx` are `pre` and `pre_cx` after a structural
    /// operation that leaves `entries` in the map and releases `removed`,
    /// first to last, and then, if it `changed` the structure, marks the
    /// structural marker changed.
    pub open spec fn restructured(
        pre: &Self,
        post: &Self,
        entries: Seq<(u64, V)>,
        removed: Seq<V>,
        changed: bool,
        pre_cx: &StateContext,
        post_cx: &StateContext,
    ) -> bool {
        &&& post.entries() == entries
        &&& post.structure() == (if changed {
            StateStatus::Changed
        } else {
            pre.structure()
        })
        &&& post_cx.waker() == pre_cx.waker()
        &&& post_cx.woken() == pre_cx.woken() + all_release_wakes(removed) + (if changed {
            wake_seq(pre.structure().registered())
        } else {
            Seq::empty()
        })
    }

    /// An empty map; its structural marker starts as changed.
    pub fn new() -> (r: Self)
        ensures
            r.structure() == StateStatus::Changed,
            r.entries() == Seq::<(u64, V)>::empty(),
            r.wf(),
    {
        HashMapComponent { updated: StateCell::new(()), entries: Vec::new() }
    }

    pub fn len(&self) -> (r: usize)
        ensures
            r == self.entries().len(),
    {
        self.entries.len()
    }

    pub fn is_empty(&self) -> (r: bool)
        ensures
            r == (self.entries().len() == 0),
    {
        self.entries.len() == 0
    }

    /// Where `key` is found, if it is in the map.
    fn find(&self, key: u64) -> (r: Option<usize>)
        ensures
            match r {
                Some(index) => found_at(self.entries(), key, index as int),
                None => absent(self.entries(), key),
            },
    {
        let mut index: usize = 0;
        while index < self.entries.len()
            invariant
                index <= self.entries@.len(),
                forall|j: int| 0 <= j < index ==> (#[trigger] self.entries@[j]).0 != key,
            decreases self.entries@.len() - index,
        {
            if self.entries[index].0 == key {
                return Some(index);
            }
            index += 1;
        }
        None
    }

    pub fn contains_key(&self, key: u64) -> (r: bool)
        ensures
            r == !absent(self.entries(), key),
    {
        self.find(key).is_some()
    }

    /// Read access to the component under `key`, if there is one.
    pub fn get(&self, key: u64) -> (r: Option<&V>)
        ensures
            match r {
                Some(value) => exists|index: int|
                    found_at(self.entries(), key, index) && *value == self.entries()[index].1,
                None => absent(self.entries(), key),
            },
    {
        match self.find(key) {
            Some(index) => Some(&self.entries[index].1),
            None => None,
        }
    }

    /// Write access to the component under `key`, if there is one. Handing an
    /// entry out for writing counts as a change of the structure.
    pub fn get_mut(&mut self, key: u64, cx: &mut StateContext) -> (r: Option<&mut V>)
        ensures
            final(cx).waker() == old(cx).waker(),
            match r {
                Some(value) => exists|index: int|
                    {
                        &&& found_at(old(self).entries(), key, index)
                        &&& *value == old(self).entries()[index].1
                        &&& final(self).entries() == old(self).entries().update(
                            index,
                            (key, *final(value)),
                        )
                        &&& final(self).structure() == StateStatus::Changed
                        &&& final(cx).woken() == old(cx).woken() + wake_seq(
                            old(self).structure().registered(),
                        )
                    },
                None => {
                    &&& absent(old(self).entries(), key)
                    &&& final(self).entries() == old(self).entries()
                    &&& final(self).structure() == old(self).structure()
                    &&& final(cx).woken() == old(cx).woken()
                },
            },
            old(self).wf() ==> final(self).wf(),
    {
        match self.find(key) {
            Some(index) => {
                StateCell::invalidate(&mut self.updated, cx);
                Some(&mut self.entries[index].1)
            },
            None => None,
        }
    }

    /// Releases `removed` and, if the structure `changed`, marks it so.
    fn settle(&mut self, removed: Vec<V>, changed: bool, cx: &mut StateContext)
        ensures
            Self::restructured(
                old(self),
                final(self),
                old(self).entries(),
                removed@,
                changed,
                old(cx),
                final(cx),
            ),
    {
        release_all(removed, cx);
        if changed {
            StateCell::invalidate(&mut self.updated, cx);
        } else {
            assert(cx.woken() + Seq::<WakeHandle>::empty() =~= cx.woken());
        }
    }

    /// Puts `value` under `key`. A component that was under `key` is replaced
    /// in place and released; `true` is returned when there was one.
    pub fn insert(&mut self, key: u64, value: V, cx: &mut StateContext) -> (replaced: bool)
        ensures
            replaced == !absent(old(self).entries(), key),
            replaced ==> exists|index: int|
                {
                    &&& found_at(old(self).entries(), key, index)
                    &&& Self::restructured(
                        old(self),
                        final(self),
                        old(self).entries().update(index, (key, value)),
                        seq![old(self).entries()[index].1],
                        true,
                        old(cx),
                        final(cx),
                    )
                },
            !replaced ==> Self::restructured(
                old(self),
                final(self),
                old(self).entries().push((key, value)),
                Seq::empty(),
                true,
                old(cx),
                final(cx),
            ),
            old(self).wf() ==> final(self).wf(),
    {
        match self.find(key) {
            Some(index) => {
                let mut previous = value;
                core::mem::swap(&mut self.entries[index].1, &mut previous);
                let mut removed: Vec<V> = Vec::new();
                removed.push(previous);
                assert(removed@ =~= seq![old(self).entries()[index as int].1]);
                assert(self.entries@ =~= old(self).entries().update(index as int, (key, value)));
                self.settle(removed, true, cx);
                true
            },
            None => {
                self.entries.push((key, value));
                self.settle(Vec::new(), true, cx);
                false
            },
        }
    }

    /// Takes the component under `key` out and releases it.
    ///
    /// Returns `None`, and changes nothing, when `key` is not in the map.
    pub fn remove(&mut self, key: u64, cx: &mut StateContext) -> (r: Option<()>)
        ensures
            r.is_some() == !absent(old(self).entries(), key),
            r.is_some() ==> exists|index: int|
                {
                    &&& found_at(old(self).entries(), key, index)
                    &&& Self::restructured(
                        old(self),
                        final(self),
                        old(self).entries().remove(index),
                        seq![old(self).entries()[index].1],
                        true,
                        old(cx),
                        final(cx),
                    )
                },
            r.is_none() ==> Self::restructured(
                old(self),
                final(self),
                old(self).entries(),
                Seq::empty(),
                false,
                old(cx),
                final(cx),
            ),
            old(self).wf() ==> final(self).wf(),
    {
        match self.find(key) {
            Some(index) => {
                let entry = self.entries.remove(index);
                let mut removed: Vec<V> = Vec::new();
                removed.push(entry.1);
                assert(removed@ =~= seq![old(self).entries()[index as int].1]);
                self.settle(removed, true, cx);
                Some(())
            },
            None => {
                self.settle(Vec::new(), false, cx);
                None
            },
        }
    }

    /// Keeps the entries for which `f` returns `true`, in order, and releases
    /// the components of the others, first to last. Nothing is marked when
    /// every entry is kept.
    pub fn retain<F: Fn(u64, &V) -> bool>(&mut self, f: F, cx: &mut StateContext)
        requires
            forall|i: int|
                0 <= i < old(self).entries().len() ==> call_requires(
                    f,
                    ((#[trigger] old(self).entries()[i]).0, &old(self).entries()[i].1),
                ),
        ensures
            exists|keep: Seq<bool>|
                {
                    &&& keep.len() == old(self).entries().len()
                    &&& forall|i: int|
                        0 <= i < keep.len() ==> call_ensures(
                            f,
                            (old(self).entries()[i].0, &old(self).entries()[i].1),
                            #[trigger] keep[i],
                        )
                    &&& Self::restructured(
                        old(self),
                        final(self),
                        select(old(self).entries(), keep, true),
                        entry_values(select(old(self).entries(), keep, false)),
                        select(old(self).entries(), keep, false).len() > 0,
                        old(cx),
                        final(cx),
                    )
                },
            old(self).wf() ==> final(self).wf(),
    {
        let ghost all = self.entries@;
        let mut stack: Vec<(u64, V)> = Vec::new();
        assert(all == old(self).entries());
        assert forall|i: int| 0 <= i < all.len() implies call_requires(
            f,
            ((#[trigger] all[i]).0, &all[i].1),
        ) by {
            assert(call_requires(f, (old(self).entries()[i].0, &old(self).entries()[i].1)));
        }
        while self.entries.len() > 0
            invariant
                self.updated == old(self).updated,
                all == old(self).entries(),
                forall|i: int| 0 <= i < all.len() ==> call_requires(f, ((#[trigger] all[i]).0, &all[i].1)),
                self.entries@.len() + stack@.len() == all.len(),
                forall|i: int| 0 <= i < self.entries@.len() ==> self.entries@[i] == all[i],
                forall|i: int| 0 <= i < stack@.len() ==> stack@[i] == all[all.len() - 1 - i],
            decreases self.entries@.len(),
        {
            let entry = self.entries.pop().unwrap();
            stack.push(entry);
        }
        let mut removed: Vec<V> = Vec::new();
        let ghost mut keep: Seq<bool> = Seq::empty();
        assert(all.take(0) =~= Seq::<(u64, V)>::empty());
        assert(removed@ =~= entry_values(select(all.take(0), keep, false)));
        while stack.len() > 0
            invariant
                self.updated == old(self).updated,
                all == old(self).entries(),
                stack@.len() <= all.len(),
                keep.len() == all.len() - stack@.len(),
                forall|i: int| 0 <= i < stack@.len() ==> stack@[i] == all[all.len() - 1 - i],
                forall|i: int| 0 <= i < all.len() ==> call_requires(f, ((#[trigger] all[i]).0, &all[i].1)),
                forall|i: int|
                    0 <= i < keep.len() ==> call_ensures(
                        f,
                        (all[i].0, &all[i].1),
                        #[trigger] keep[i],
                    ),
                self.entries@ == select(all.take(keep.len() as int), keep, true),
                removed@ == entry_values(select(all.take(keep.len() as int), keep, false)),
            decreases stack@.len(),
        {
            let ghost done = keep.len() as int;
            let entry = stack.pop().unwrap();
            assert(entry == all[done]);
            let kept = f(entry.0, &entry.1);
            proof {
                assert(all.take(done + 1).drop_last() =~= all.take(done));
                assert(keep.push(kept).drop_last() =~= keep);
                if !kept {
                    assert(entry_values(select(all.take(done), keep, false).push(entry))
                        =~= entry_values(select(all.take(done), keep, false)).push(entry.1));
                }
                keep = keep.push(kept);
            }
            if kept {
                self.entries.push(entry);
            } else {
                removed.push(entry.1);
            }
        }
        assert(all.take(all.len() as int) =~= all);
        proof {
            if unique_keys(all) {
                lemma_select_keeps_unique(all, keep, true);
            }
        }
        let changed = removed.len() > 0;
        self.settle(removed, changed, cx);
    }

    /// Takes every entry out and releases the components, first to last.
    /// Nothing is marked when the map is empty already.
    pub fn clear(&mut self, cx: &mut StateContext)
        ensures
            Self::restructured(
                old(self),
                final(self),
                Seq::empty(),
                entry_values(old(self).entries()),
                old(self).entries().len() > 0,
                old(cx),
                final(cx),
            ),
            final(self).wf(),
    {
        let ghost all = self.entries@;
        let mut removed: Vec<V> = Vec::new();
        while self.entries.len() > 0
            invariant
                self.updated == old(self).updated,
                self.entries@.len() + removed@.len() == all.len(),
                forall|i: int| 0 <= i < self.entries@.len() ==> self.entries@[i] == all[i],
                forall|i: int|
                    0 <= i < removed@.len() ==> removed@[i] == all[all.len() - 1 - i].1,
            decreases self.entries@.len(),
        {
            let entry = self.entries.pop().unwrap();
            removed.push(entry.1);
        }
        let mut ordered: Vec<V> = Vec::new();
        while removed.len() > 0
            invariant
                self.updated == old(self).updated,
                self.entries@.len() == 0,
                ordered@.len() + removed@.len() == all.len(),
                forall|i: int|
                    0 <= i < removed@.len() ==> removed@[i] == all[all.len() - 1 - i].1,
                forall|i: int| 0 <= i < ordered@.len() ==> ordered@[i] == all[i].1,
            decreases removed@.len(),
        {
            let value = removed.pop().unwrap();
            ordered.push(value);
        }
        assert(ordered@ =~= entry_values(all));
        assert(self.entries@ =~= Seq::<(u64, V)>::empty());
        let changed = ordered.len() > 0;
        self.settle(ordered, changed, cx);
    }
}

impl<V: AsyncComponent> AsyncComponent for HashMapComponent<V> {
    open spec fn poll_flags(&self) -> ComponentPollFlags {
        structural_flags(self.structure()).spec_union(all_flags(entry_values(self.entries())))
    }

    open spec fn poll_wakes(&self) -> Seq<WakeHandle> {
        all_poll_wakes(entry_values(self.entries()))
    }

    open spec fn polled(&self, waker: WakeHandle, post: &Self) -> bool {
        &&& post.structure() == self.structure().polled(waker)
        &&& post.entries().len() == self.entries().len()
        &&& forall|i: int|
            0 <= i < self.entries().len() ==> (#[trigger] post.entries()[i]).0
                == self.entries()[i].0
        &&& all_polled(entry_values(self.entries()), waker, entry_values(post.entries()))
    }

    open spec fn release_wakes(&self) -> Seq<WakeHandle> {
        wake_seq(self.structure().registered()) + all_release_wakes(entry_values(self.entries()))
    }

    fn poll_next(&mut self, cx: &mut StateContext) -> (r: Poll<ComponentPollFlags>) {
        let ghost all = self.entries@;
        let ghost values = entry_values(all);
        let mut result = ComponentPollFlags::empty();
        if StateCell::refresh(&mut self.updated, cx) {
            result.insert(ComponentPollFlags::state());
        }
        assert(values.take(0) =~= Seq::<V>::empty());
        assert(cx.woken() =~= old(cx).woken() + all_poll_wakes(values.take(0)));
        let mut index: usize = 0;
        while index < self.entries.len()
            invariant
                index <= all.len(),
                all == old(self).entries(),
                values == entry_values(all),
                self.entries@.len() == all.len(),
                self.updated.status() == old(self).structure().polled(old(cx).waker()),
                forall|i: int| 0 <= i < all.len() ==> (#[trigger] self.entries@[i]).0 == all[i].0,
                forall|i: int|
                    0 <= i < index ==> (#[trigger] values[i]).polled(
                        old(cx).waker(),
                        &self.entries@[i].1,
                    ),
                forall|i: int| index <= i < all.len() ==> self.entries@[i] == all[i],
                result == structural_flags(old(self).structure()).spec_union(
                    all_flags(values.take(index as int)),
                ),
                cx.waker() == old(cx).waker(),
                cx.woken() == old(cx).woken() + all_poll_wakes(values.take(index as int)),
            decreases all.len() - index,
        {
            proof {
                assert(values.take(index + 1).drop_last() =~= values.take(index as int));
                assert(values.take(index + 1).last() == all[index as int].1);
            }
            let polled = self.entries[index].1.poll_next(cx);
            result.insert(from_poll(polled));
            index += 1;
        }
        assert(values.take(all.len() as int) =~= values);
        assert forall|i: int| 0 <= i < values.len() implies (#[trigger] values[i]).polled(
            old(cx).waker(),
            &entry_values(self.entries@)[i],
        ) by {}
        into_poll(result)
    }

    fn release(self, cx: &mut StateContext) {
        let HashMapComponent { updated, entries } = self;
        let mut map = HashMapComponent { updated: StateCell::new(()), entries };
        updated.release(cx);
        map.clear(cx);
        assert(cx.woken() =~= old(cx).woken() + self.release_wakes());
    }
}

} // verus!
